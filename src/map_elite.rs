use vstd::prelude::*;

use crate::config::ProblemConfig;
use crate::features::FeatureMapper;
use crate::niche::{copy_of, find_niche, has_key, keys_unique, lemma_unique_keys_bound};
use crate::organism::{lemma_scored, Named, Organism};
use crate::random::random_index;
use crate::selection::Elitism;

verus! {

/// MAP-Elites: one unbounded archive keyed by the full feature projection.
pub struct MAPElite<FM> {
    pub feature_mapper: FM,
}

impl<FM> Named for MAPElite<FM> {
    fn name(&self) -> String {
        "MAP Elite".to_owned()
    }
}

/// What the archive becomes once `mutant` (unscored), filed under `key`,
/// has competed in it: it takes a free niche unscored; otherwise, scored,
/// it replaces the occupant when the comparator keeps it, and else the
/// occupant stays, its score cache filled.
pub open spec fn archive_step<V, P, H, C: ProblemConfig<V, P, H>, El: Elitism>(
    before: Seq<(u64, Organism<V>)>,
    after: Seq<(u64, Organism<V>)>,
    key: u64,
    mutant: Organism<V>,
    elitism: El,
    config: C,
    problem: P,
) -> bool {
    if !has_key(before, key) {
        after == before.push((key, mutant))
    } else {
        exists|j: int|
            0 <= j < before.len() && (#[trigger] before[j]).0 == key && {
                let challenger = mutant.scored(&config, &problem);
                let incumbent = before[j].1.scored(&config, &problem);
                let score_a = challenger.cached_score()->Some_0;
                let score_b = incumbent.cached_score()->Some_0;
                ||| (after == before.update(j, (key, challenger)) && elitism.spec_admits(score_a, score_b, true))
                ||| (after == before.update(j, (key, incumbent)) && elitism.spec_admits(score_a, score_b, false))
            }
    }
}

/// An archive: non-empty, distinct keys, each occupant filed under its own
/// projection and holding a valid score cache.
pub open spec fn archive_ok<V, P, H, C: ProblemConfig<V, P, H>, FM: FeatureMapper<V, P>>(
    niches: Seq<(u64, Organism<V>)>,
    mapper: FM,
    config: C,
    problem: P,
) -> bool {
    &&& niches.len() >= 1
    &&& keys_unique(niches)
    &&& forall|j: int|
        0 <= j < niches.len() ==> {
            &&& (#[trigger] niches[j]).0 == mapper.spec_project(niches[j].1.spec_genotype())
            &&& niches[j].1.cache_valid(&config, &problem)
        }
}

impl<FM: Clone> MAPElite<FM> {
    /// Starts the archive with one random, unscored organism under its
    /// projected key.
    pub fn initialize_solver<V: Clone, P, H: Copy, C: ProblemConfig<V, P, H>, El: Elitism>(
        &self,
        pop_size: usize,
        problem: P,
        elitism: El,
        problem_config: C,
    ) -> (r: MAPEliteExec<V, P, H, C, El, FM>)
        where
            FM: FeatureMapper<V, P>,
        ensures
            r.wf(),
            r.spec_niches().len() == 1,
            r.spec_niches()[0].1.cached_score() is None,
            problem_config.spec_generated(problem, r.spec_niches()[0].1.spec_genotype()),
            r.spec_niches()[0].0 == r.spec_mapper().spec_project(r.spec_niches()[0].1.spec_genotype()),
            cloned(self.feature_mapper, r.spec_mapper()),
            r.spec_config() == problem_config,
            r.spec_problem() == problem,
            r.spec_elitism() == elitism,
    {
        let org = problem_config.generate_organism(&problem);
        let feature_mapper = self.feature_mapper.clone();
        let feat = feature_mapper.project(org.genotype());
        let niches = vec![(feat, org)];
        MAPEliteExec {
            niches,
            problem,
            problem_config,
            elitism,
            feature_mapper,
            hyper_marker: core::marker::PhantomData,
        }
    }
}

/// A running MAP-Elites archive.
pub struct MAPEliteExec<V, P, H, C: ProblemConfig<V, P, H>, El: Elitism, FM: FeatureMapper<V, P>> {
    niches: Vec<(u64, Organism<V>)>,
    problem: P,
    problem_config: C,
    elitism: El,
    feature_mapper: FM,
    hyper_marker: core::marker::PhantomData<H>,
}

impl<V: Clone, P, H: Copy, C: ProblemConfig<V, P, H>, El: Elitism, FM: FeatureMapper<V, P>> MAPEliteExec<V, P, H, C, El, FM> {
    pub closed spec fn spec_niches(&self) -> Seq<(u64, Organism<V>)> {
        self.niches@
    }

    pub closed spec fn spec_mapper(&self) -> FM {
        self.feature_mapper
    }

    pub closed spec fn spec_config(&self) -> C {
        self.problem_config
    }

    pub closed spec fn spec_problem(&self) -> P {
        self.problem
    }

    pub closed spec fn spec_elitism(&self) -> El {
        self.elitism
    }

    /// Everything but the archive is the same in `other`.
    pub open spec fn same_setting(&self, other: &Self) -> bool {
        &&& other.spec_mapper() == self.spec_mapper()
        &&& other.spec_config() == self.spec_config()
        &&& other.spec_problem() == self.spec_problem()
        &&& other.spec_elitism() == self.spec_elitism()
    }

    /// The archive invariant: non-empty, distinct keys, each occupant under
    /// its own projection with a valid score cache.
    pub open spec fn wf(&self) -> bool {
        archive_ok(self.spec_niches(), self.spec_mapper(), self.spec_config(), self.spec_problem())
    }

    /// The archive `after` is the outcome of one step from the occupant at
    /// `pick`: cloned into `source`, mutated with the constant
    /// hyperparameters into `mutant`, which competes under its projection.
    pub open spec fn spec_proposal(
        &self,
        after: Seq<(u64, Organism<V>)>,
        pick: int,
        source: V,
        mutant: Organism<V>,
        changed: bool,
    ) -> bool {
        let cfg = self.spec_config();
        &&& 0 <= pick < self.spec_niches().len()
        &&& cloned(self.spec_niches()[pick].1.spec_genotype(), source)
        &&& cfg.spec_mutation(source, cfg.spec_constant_hyperparameters(), mutant.spec_genotype(), changed)
        &&& mutant.cached_score() is None
        &&& archive_step(
            self.spec_niches(),
            after,
            self.spec_mapper().spec_project(mutant.spec_genotype()),
            mutant,
            self.spec_elitism(),
            cfg,
            self.spec_problem(),
        )
    }

    /// The archive never holds more occupants than there are distinct keys
    /// below `possible_features`, when the projector's keys stay below it.
    pub proof fn lemma_archive_bound(&self, possible_features: nat)
        requires
            self.wf(),
            forall|g: V| (#[trigger] self.spec_mapper().spec_project(g) as nat) < possible_features,
        ensures
            self.spec_niches().len() <= possible_features,
    {
        let n = self.niches@;
        assert forall|j: int| 0 <= j < n.len() implies ((#[trigger] n[j]).0 as nat) < possible_features by {
            assert(n[j].0 == self.feature_mapper.spec_project(n[j].1.spec_genotype()));
            assert((self.spec_mapper().spec_project(n[j].1.spec_genotype()) as nat) < possible_features);
        }
        lemma_unique_keys_bound(n, possible_features);
    }

    /// One step with its draw given: the occupant at `pick` is cloned and
    /// mutated with the constant hyperparameters; it takes a free niche, or
    /// replaces the occupant of its niche when the comparator keeps it.
    /// Niches are never lost.
    pub fn propose(&mut self, pick: usize)
        requires
            old(self).wf(),
            pick < old(self).spec_niches().len(),
        ensures
            final(self).wf(),
            old(self).same_setting(&*final(self)),
            exists|source: V, mutant: Organism<V>, changed: bool|
                #[trigger] old(self).spec_proposal(final(self).spec_niches(), pick as int, source, mutant, changed),
            old(self).spec_niches().len() <= final(self).spec_niches().len() <= old(self).spec_niches().len() + 1,
            forall|j: int|
                0 <= j < old(self).spec_niches().len() ==> (#[trigger] final(self).spec_niches()[j]).0
                    == old(self).spec_niches()[j].0,
    {
        let ghost old_n = self.niches@;
        let ghost fm = self.feature_mapper;
        let ghost cfg = self.problem_config;
        let ghost pb = self.problem;
        let mut new_org = self.niches[pick].1.duplicate();
        let ghost source = new_org.spec_genotype();
        let hyper = self.problem_config.constant_hyperparameters();
        let changed = new_org.mutate(&self.problem_config, &hyper);
        let ghost mutant = new_org;
        let new_feat = self.feature_mapper.project(new_org.genotype());
        match find_niche(&self.niches, new_feat) {
            None => {
                self.niches.push((new_feat, new_org));
                proof {
                    assert(keys_unique(self.niches@)) by {
                        assert forall|i: int, k: int|
                            0 <= i < self.niches@.len() && 0 <= k < self.niches@.len() && i != k implies (#[trigger] self.niches@[i]).0
                            != (#[trigger] self.niches@[k]).0 by {
                            if i < old_n.len() {
                                assert(self.niches@[i] == old_n[i]);
                            }
                            if k < old_n.len() {
                                assert(self.niches@[k] == old_n[k]);
                            }
                        }
                    }
                    assert forall|i: int| 0 <= i < self.niches@.len() implies {
                        &&& (#[trigger] self.niches@[i]).0 == fm.spec_project(self.niches@[i].1.spec_genotype())
                        &&& self.niches@[i].1.cache_valid(&cfg, &pb)
                    } by {
                        if i < old_n.len() {
                            assert(self.niches@[i] == old_n[i]);
                        }
                    }
                }
            },
            Some(k) => {
                let score_new = new_org.score_with_cache(&self.problem_config, &self.problem);
                let (key, mut retrieved) = self.niches.remove(k);
                let score_retrieved = retrieved.score_with_cache(&self.problem_config, &self.problem);
                if self.elitism.select(score_new, score_retrieved) {
                    self.niches.insert(k, (new_feat, new_org));
                    assert(self.niches@ =~= old_n.update(k as int, (new_feat, mutant.scored(&cfg, &pb))));
                } else {
                    self.niches.insert(k, (key, retrieved));
                    assert(self.niches@ =~= old_n.update(k as int, (new_feat, old_n[k as int].1.scored(&cfg, &pb))));
                }
                proof {
                    lemma_scored(mutant, &cfg, &pb);
                    assert(old_n[k as int].0 == new_feat);
                    assert forall|i: int| 0 <= i < self.niches@.len() && i != k implies #[trigger] self.niches@[i]
                        == old_n[i] by {}
                    assert(keys_unique(self.niches@)) by {
                        assert forall|i: int, m: int|
                            0 <= i < self.niches@.len() && 0 <= m < self.niches@.len() && i != m implies (#[trigger] self.niches@[i]).0
                            != (#[trigger] self.niches@[m]).0 by {
                            if i != k {
                                assert(self.niches@[i] == old_n[i]);
                            }
                            if m != k {
                                assert(self.niches@[m] == old_n[m]);
                            }
                        }
                    }
                    assert forall|i: int| 0 <= i < self.niches@.len() implies {
                        &&& (#[trigger] self.niches@[i]).0 == fm.spec_project(self.niches@[i].1.spec_genotype())
                        &&& self.niches@[i].1.cache_valid(&cfg, &pb)
                    } by {
                        if i != k {
                            assert(self.niches@[i] == old_n[i]);
                        } else {
                            assert(old_n[i].1.cache_valid(&cfg, &pb));
                        }
                    }
                }
            },
        }
        assert(old(self).spec_proposal(self.spec_niches(), pick as int, source, mutant, changed));
    }

    /// One step from a uniformly drawn occupant; returns copies of every
    /// occupant. Whatever was drawn, the archive is the outcome of one
    /// `propose`.
    pub fn update(&mut self) -> (r: Vec<Organism<V>>)
        requires
            old(self).wf(),
        ensures
            final(self).wf(),
            old(self).same_setting(&*final(self)),
            exists|pick: int, source: V, mutant: Organism<V>, changed: bool|
                #[trigger] old(self).spec_proposal(final(self).spec_niches(), pick, source, mutant, changed),
            old(self).spec_niches().len() <= final(self).spec_niches().len() <= old(self).spec_niches().len() + 1,
            r@.len() == final(self).spec_niches().len(),
            forall|i: int| 0 <= i < r@.len() ==> copy_of(final(self).spec_niches()[i].1, #[trigger] r@[i]),
            r@.len() >= 1,
    {
        let pick = random_index(self.niches.len());
        self.propose(pick);
        self.population()
    }

    /// The archive's `(key, occupant)` pairs.
    pub fn niches(&self) -> (r: &Vec<(u64, Organism<V>)>)
        ensures
            r@ == self.spec_niches(),
    {
        &self.niches
    }

    /// Copies of every occupant of the archive.
    pub fn population(&self) -> (r: Vec<Organism<V>>)
        ensures
            r@.len() == self.spec_niches().len(),
            forall|i: int| 0 <= i < r@.len() ==> copy_of(self.spec_niches()[i].1, #[trigger] r@[i]),
    {
        let mut r: Vec<Organism<V>> = Vec::new();
        let mut i: usize = 0;
        while i < self.niches.len()
            invariant
                i <= self.niches@.len(),
                r@.len() == i,
                forall|k: int| 0 <= k < i ==> copy_of(self.niches@[k].1, #[trigger] r@[k]),
            decreases self.niches@.len() - i,
        {
            r.push(self.niches[i].1.duplicate());
            i = i + 1;
        }
        r
    }
}

} // verus!

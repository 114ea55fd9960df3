use vstd::prelude::*;

use crate::config::ProblemConfig;
use crate::niche::{
    changed_only_at, copy_of, niche_step, occupants, lemma_total_entries_change,
    collect_organisms, find_niche, keys_unique, lemma_single_key_bound, lemma_total_entries_bound, lemma_unique_keys_bound,
    total_entries,
};
use crate::organism::{Named, Organism};
use crate::problems::axis_ok;
use crate::random::{random_coin, random_index};
use crate::selection::Elitism;
use crate::util::{
    cell_count, flat_index, in_bounds, integer_root, lemma_flat_index_bound, lemma_power_positive,
    lemma_power_prefix, power, Coordinates,
};

verus! {

/// Generalized MAP-Elites: a dense N-dimensional grid of niche maps where a
/// mutant of one cell competes in a neighbouring cell.
#[derive(Copy, Clone)]
pub struct GeneralizedMAPElite {
    pub use_features: bool,
    pub use_hyperparameter_mapping: bool,
    pub number_of_spatial_dimensions: usize,
}

impl Named for GeneralizedMAPElite {
    fn name(&self) -> String {
        "Generalized MAP Elite algorithm".to_owned()
    }
}

/// The niche key a solver files a genotype under.
pub open spec fn niche_key<V, P, H, C: ProblemConfig<V, P, H>>(use_features: bool, config: C, genome: V) -> u64 {
    if use_features {
        config.spec_project(genome)
    } else {
        config.spec_default_features()
    }
}

/// Product of the axis lengths.
pub open spec fn shape_count(shape: Seq<usize>) -> nat
    decreases shape.len(),
{
    if shape.len() == 0 {
        1
    } else {
        shape_count(shape.drop_last()) * (shape.last() as nat)
    }
}

/// An index paired with its axis length, axis by axis.
pub open spec fn zip_coords(index: Seq<usize>, shape: Seq<usize>) -> Seq<(usize, usize)> {
    Seq::new(index.len(), |i: int| (index[i], shape[i]))
}

/// Index vector inside the grid shape.
pub open spec fn index_in_shape(index: Seq<usize>, shape: Seq<usize>) -> bool {
    index.len() == shape.len() && forall|i: int| 0 <= i < index.len() ==> #[trigger] index[i] < shape[i]
}

/// The neighbour of `index` along `axis`: one step up at axis 0, one step
/// down at the last axis, otherwise up when `coin` holds; clamped to the axis.
pub open spec fn neighbor(index: Seq<usize>, shape: Seq<usize>, axis: int, coin: bool) -> Seq<usize> {
    let step: int = if axis == 0 {
        1
    } else if axis == shape.len() - 1 {
        -1
    } else if coin {
        1
    } else {
        -1
    };
    let moved: int = index[axis] + step;
    let top: int = shape[axis] - 1;
    let clamped: int = if moved < 0 {
        0
    } else if moved > top {
        top
    } else {
        moved
    };
    index.update(axis, clamped as usize)
}

/// A freshly generated, unscored organism filed under its niche key.
pub open spec fn fresh_entry<V, P, H, C: ProblemConfig<V, P, H>>(
    entry: (u64, Organism<V>),
    use_features: bool,
    config: C,
    problem: P,
) -> bool {
    &&& entry.1.cached_score() is None
    &&& config.spec_generated(problem, entry.1.spec_genotype())
    &&& entry.0 == niche_key(use_features, config, entry.1.spec_genotype())
}

/// A niche map of the grid: non-empty, distinct keys, each occupant filed
/// under its own key and holding a valid score cache.
pub open spec fn cell_ok<V, P, H, C: ProblemConfig<V, P, H>>(
    cell: Seq<(u64, Organism<V>)>,
    use_features: bool,
    config: C,
    problem: P,
) -> bool {
    &&& cell.len() >= 1
    &&& keys_unique(cell)
    &&& forall|j: int|
        0 <= j < cell.len() ==> {
            &&& (#[trigger] cell[j]).0 == niche_key(use_features, config, cell[j].1.spec_genotype())
            &&& cell[j].1.cache_valid(&config, &problem)
        }
}

proof fn lemma_shape_count_zip(index: Seq<usize>, shape: Seq<usize>)
    requires
        index.len() == shape.len(),
    ensures
        cell_count(zip_coords(index, shape)) == shape_count(shape),
    decreases shape.len(),
{
    if shape.len() > 0 {
        let n = (shape.len() - 1) as int;
        lemma_shape_count_zip(index.take(n), shape.take(n));
        assert(zip_coords(index, shape).drop_last() =~= zip_coords(index.take(n), shape.take(n)));
        assert(shape.drop_last() =~= shape.take(n));
    }
}

proof fn lemma_shape_count_uniform(shape: Seq<usize>, side: usize)
    requires
        forall|i: int| 0 <= i < shape.len() ==> #[trigger] shape[i] == side,
    ensures
        shape_count(shape) == power(side as nat, shape.len()),
    decreases shape.len(),
{
    if shape.len() > 0 {
        let p = shape.drop_last();
        assert forall|i: int| 0 <= i < p.len() implies #[trigger] p[i] == side by {
            assert(p[i] == shape[i]);
        }
        lemma_shape_count_uniform(p, side);
        assert(shape.last() == shape[shape.len() - 1]);
    }
}

impl GeneralizedMAPElite {
    /// Distinct niche keys a cell can hold: the projector's cardinality when
    /// features are used, else one.
    pub open spec fn spec_possible_features<V, P, H, C: ProblemConfig<V, P, H>>(&self, config: C, problem: P) -> nat {
        if self.use_features {
            config.spec_feature_count(problem)
        } else {
            1
        }
    }

    /// Number of grid axes: the larger of the hyperparameter count and the
    /// configured spatial dimensionality.
    pub open spec fn spec_num_dims<V, P, H, C: ProblemConfig<V, P, H>>(&self, config: C) -> nat {
        if config.spec_hyperparameter_dims() >= self.number_of_spatial_dimensions {
            config.spec_hyperparameter_dims()
        } else {
            self.number_of_spatial_dimensions as nat
        }
    }

    /// Builds the grid: `side^num_dims` cells, `side` the integer
    /// `num_dims`-th root of `pop_size / possible_features`, each cell holding
    /// one freshly generated organism under its niche key.
    pub fn initialize_solver<V: Clone, P, H: Copy, C: ProblemConfig<V, P, H>, El: Elitism>(
        &self,
        pop_size: usize,
        problem: P,
        elitism: El,
        problem_config: C,
    ) -> (r: GeneralizedMAPEliteExec<V, P, H, C, El>)
        requires
            pop_size > self.spec_possible_features(problem_config, problem),
            self.spec_possible_features(problem_config, problem) >= 1,
            self.spec_num_dims(problem_config) >= 1,
            pop_size + 2 <= u64::MAX,
        ensures
            r.wf(),
            r.spec_use_features() == self.use_features,
            r.spec_shape().len() == self.spec_num_dims(problem_config),
            forall|i: int| 0 <= i < r.spec_shape().len() ==> #[trigger] r.spec_shape()[i] == r.spec_shape()[0],
            power(r.spec_shape()[0] as nat, self.spec_num_dims(problem_config)) <= pop_size as nat
                / self.spec_possible_features(problem_config, problem),
            power(r.spec_shape()[0] as nat + 1, self.spec_num_dims(problem_config)) > pop_size as nat
                / self.spec_possible_features(problem_config, problem),
            r.spec_cells().len() == power(r.spec_shape()[0] as nat, self.spec_num_dims(problem_config)),
            forall|c: int| 0 <= c < r.spec_cells().len() ==> (#[trigger] r.spec_cells()[c])@.len() == 1,
            forall|c: int|
                0 <= c < r.spec_cells().len() ==> fresh_entry(
                    (#[trigger] r.spec_cells()[c])@[0],
                    self.use_features,
                    problem_config,
                    problem,
                ),
            r.spec_config() == problem_config,
            r.spec_problem() == problem,
            r.spec_elitism() == elitism,
            r.spec_use_hyperparameter_mapping() == self.use_hyperparameter_mapping,
    {
        let possible_features: usize = if self.use_features {
            problem_config.number_of_possible_features(&problem)
        } else {
            1
        };
        let pop_per_cell = pop_size / possible_features;
        proof {
            let n = pop_size as int;
            let f = possible_features as int;
            assert(n / f >= 1) by (nonlinear_arith)
                requires
                    n >= f,
                    f >= 1,
            ;
        }
        let hdims = problem_config.number_of_hyperparameters();
        let num_dims = if hdims >= self.number_of_spatial_dimensions {
            hdims
        } else {
            self.number_of_spatial_dimensions
        };
        let side = integer_root(pop_per_cell, num_dims);
        let mut shape: Vec<usize> = Vec::new();
        let mut total: usize = 1;
        let mut i: usize = 0;
        proof {
            lemma_power_positive(side as nat, num_dims as nat);
        }
        while i < num_dims
            invariant
                side >= 1,
                i <= num_dims,
                power(side as nat, num_dims as nat) <= pop_per_cell,
                shape@.len() == i,
                forall|k: int| 0 <= k < i ==> #[trigger] shape@[k] == side,
                total == power(side as nat, i as nat),
            decreases num_dims - i,
        {
            proof {
                lemma_power_prefix(side as nat, (i + 1) as nat, num_dims as nat);
            }
            shape.push(side);
            total = total * side;
            i = i + 1;
        }
        proof {
            lemma_shape_count_uniform(shape@, side);
        }
        let mut cells: Vec<Vec<(u64, Organism<V>)>> = Vec::new();
        let mut k: usize = 0;
        while k < total
            invariant
                k <= total,
                cells@.len() == k,
                forall|c: int|
                    0 <= c < k ==> (#[trigger] cells@[c])@.len() == 1 && cell_ok(
                        cells@[c]@,
                        self.use_features,
                        problem_config,
                        problem,
                    ) && fresh_entry(cells@[c]@[0], self.use_features, problem_config, problem),
            decreases total - k,
        {
            let org = problem_config.generate_organism(&problem);
            let key = if self.use_features {
                problem_config.project(org.genotype())
            } else {
                problem_config.default_features()
            };
            let cell = vec![(key, org)];
            proof {
                assert(keys_unique(cell@));
            }
            cells.push(cell);
            k = k + 1;
        }
        GeneralizedMAPEliteExec {
            algo_config: *self,
            problem,
            shape,
            cells,
            problem_config,
            elitism,
            hyper_marker: core::marker::PhantomData,
        }
    }
}

/// A running solver over a grid of niche maps, stored flat in row-major order.
pub struct GeneralizedMAPEliteExec<V, P, H, C: ProblemConfig<V, P, H>, El: Elitism> {
    algo_config: GeneralizedMAPElite,
    problem: P,
    shape: Vec<usize>,
    cells: Vec<Vec<(u64, Organism<V>)>>,
    problem_config: C,
    elitism: El,
    hyper_marker: core::marker::PhantomData<H>,
}

impl<V: Clone, P, H: Copy, C: ProblemConfig<V, P, H>, El: Elitism> GeneralizedMAPEliteExec<V, P, H, C, El> {
    pub closed spec fn spec_shape(&self) -> Seq<usize> {
        self.shape@
    }

    pub closed spec fn spec_cells(&self) -> Seq<Vec<(u64, Organism<V>)>> {
        self.cells@
    }

    pub closed spec fn spec_use_features(&self) -> bool {
        self.algo_config.use_features
    }

    pub closed spec fn spec_use_hyperparameter_mapping(&self) -> bool {
        self.algo_config.use_hyperparameter_mapping
    }

    pub closed spec fn spec_config(&self) -> C {
        self.problem_config
    }

    pub closed spec fn spec_problem(&self) -> P {
        self.problem
    }

    pub closed spec fn spec_elitism(&self) -> El {
        self.elitism
    }

    /// Everything but the cells is the same in `other`.
    pub open spec fn same_setting(&self, other: &Self) -> bool {
        &&& other.spec_shape() == self.spec_shape()
        &&& other.spec_use_features() == self.spec_use_features()
        &&& other.spec_use_hyperparameter_mapping() == self.spec_use_hyperparameter_mapping()
        &&& other.spec_config() == self.spec_config()
        &&& other.spec_problem() == self.spec_problem()
        &&& other.spec_elitism() == self.spec_elitism()
    }

    /// The hyperparameters a mutant of cell `index_a` is made with: those
    /// the environment maps the cell's first axes to, or the constant ones.
    pub open spec fn spec_hyper_for(&self, index_a: Seq<usize>) -> H {
        if self.spec_use_hyperparameter_mapping() {
            self.spec_config().spec_map_hyperparameters(
                zip_coords(index_a, self.spec_shape()).take(self.spec_config().spec_hyperparameter_dims() as int),
            )
        } else {
            self.spec_config().spec_constant_hyperparameters()
        }
    }

    /// The cells `after` are the outcome of one proposal from cell
    /// `index_a` towards the neighbour chosen by `axis` and `coin`: the
    /// occupant at `pick` is cloned into `source`, which mutates into
    /// `mutant` (scored), and `mutant` competes in the neighbour's niche
    /// map, where only its own key can change; a move counts when the key
    /// or the cell differs from the source's.
    pub open spec fn spec_proposal(
        &self,
        after: Seq<Vec<(u64, Organism<V>)>>,
        index_a: Seq<usize>,
        axis: int,
        coin: bool,
        pick: int,
        source: V,
        mutant: Organism<V>,
        changed: bool,
    ) -> bool {
        let shape = self.spec_shape();
        let a = flat_index(zip_coords(index_a, shape)) as int;
        let b = self.spec_target(index_a, axis, coin) as int;
        let cfg = self.spec_config();
        let uf = self.spec_use_features();
        let key = niche_key(uf, cfg, mutant.spec_genotype());
        &&& index_in_shape(index_a, shape)
        &&& 0 <= axis < shape.len()
        &&& 0 <= pick < self.spec_cells()[a]@.len()
        &&& cloned(self.spec_cells()[a]@[pick].1.spec_genotype(), source)
        &&& cfg.spec_mutation(source, self.spec_hyper_for(index_a), mutant.spec_genotype(), changed)
        &&& mutant.cached_score() == Some(cfg.spec_score(mutant.spec_genotype(), self.spec_problem()))
        &&& changed_only_at(self.spec_cells(), after, b)
        &&& niche_step(
            self.spec_cells()[b]@,
            after[b]@,
            key,
            mutant,
            niche_key(uf, cfg, source) != key || a != b,
            self.spec_elitism(),
            cfg,
            self.spec_problem(),
        )
    }

    /// Each niche map holds at most `possible_features` occupants, so the
    /// population never exceeds `number_of_cells * possible_features`: one
    /// per cell without features, and with features as long as the
    /// projector's keys stay below `possible_features`.
    pub proof fn lemma_population_bound(&self, possible_features: nat)
        requires
            self.wf(),
            possible_features >= 1,
            self.spec_use_features() ==> forall|g: V| (#[trigger] self.spec_config().spec_project(g) as nat) < possible_features,
        ensures
            total_entries(self.spec_cells()) <= self.spec_cells().len() * possible_features,
    {
        assert forall|c: int| 0 <= c < self.cells@.len() implies (#[trigger] self.cells@[c])@.len() <= possible_features by {
            let cell = self.cells@[c]@;
            assert(cell_ok(cell, self.algo_config.use_features, self.problem_config, self.problem));
            if self.algo_config.use_features {
                assert forall|j: int| 0 <= j < cell.len() implies ((#[trigger] cell[j]).0 as nat) < possible_features by {
                    assert(cell[j].0 == self.problem_config.spec_project(cell[j].1.spec_genotype()));
                    assert((self.spec_config().spec_project(cell[j].1.spec_genotype()) as nat) < possible_features);
                }
                lemma_unique_keys_bound(cell, possible_features);
            } else {
                assert forall|j: int| 0 <= j < cell.len() implies (#[trigger] cell[j]).0 == self.problem_config.spec_default_features() by {}
                lemma_single_key_bound(cell, self.problem_config.spec_default_features());
            }
        }
        lemma_total_entries_bound(self.cells@, possible_features);
    }

    /// The grid invariant: at least one axis, as many as the hyperparameters
    /// need; a cell per position; every niche map well formed.
    pub open spec fn wf(&self) -> bool {
        &&& self.spec_shape().len() >= 1
        &&& self.spec_shape().len() >= self.spec_config().spec_hyperparameter_dims()
        &&& forall|i: int|
            0 <= i < self.spec_shape().len() ==> 1 <= #[trigger] self.spec_shape()[i] && self.spec_shape()[i] + 2
                <= u64::MAX
        &&& self.spec_cells().len() == shape_count(self.spec_shape())
        &&& forall|c: int|
            0 <= c < self.spec_cells().len() ==> cell_ok(
                (#[trigger] self.spec_cells()[c])@,
                self.spec_use_features(),
                self.spec_config(),
                self.spec_problem(),
            )
    }

    /// Without features every niche map holds exactly one occupant.
    pub proof fn lemma_single_occupants(&self)
        requires
            self.wf(),
            !self.spec_use_features(),
        ensures
            forall|c: int| 0 <= c < self.spec_cells().len() ==> (#[trigger] self.spec_cells()[c])@.len() == 1,
    {
        assert forall|c: int| 0 <= c < self.spec_cells().len() implies (#[trigger] self.spec_cells()[c])@.len() == 1 by {
            let cell = self.cells@[c]@;
            assert(cell_ok(cell, self.algo_config.use_features, self.problem_config, self.problem));
            assert forall|j: int| 0 <= j < cell.len() implies (#[trigger] cell[j]).0 == self.problem_config.spec_default_features() by {}
            lemma_single_key_bound(cell, self.problem_config.spec_default_features());
        }
    }

    pub fn shape(&self) -> (r: &Vec<usize>)
        ensures
            r@ == self.spec_shape(),
    {
        &self.shape
    }

    /// The niche maps, in row-major cell order.
    pub fn cells(&self) -> (r: &Vec<Vec<(u64, Organism<V>)>>)
        ensures
            r@ == self.spec_cells(),
    {
        &self.cells
    }

    /// Copies of every occupant of every cell, cell by cell.
    pub fn population(&self) -> (r: Vec<Organism<V>>)
        requires
            self.wf(),
        ensures
            r@.len() == total_entries(self.spec_cells()),
            r@.len() == occupants(self.spec_cells()).len(),
            forall|i: int| 0 <= i < r@.len() ==> copy_of(occupants(self.spec_cells())[i], #[trigger] r@[i]),
            r@.len() >= self.spec_cells().len() >= 1,
    {
        proof {
            crate::niche::lemma_total_entries_at_least_cells(self.cells@);
            self.lemma_cells_nonempty();
        }
        collect_organisms(&self.cells)
    }

    pub proof fn lemma_cells_nonempty(&self)
        requires
            self.wf(),
        ensures
            self.spec_cells().len() >= 1,
    {
        lemma_shape_count_positive(self.shape@);
    }

    /// The flat position of cell B for a proposal from `index_a`.
    pub open spec fn spec_target(&self, index_a: Seq<usize>, axis: int, coin: bool) -> nat {
        flat_index(zip_coords(neighbor(index_a, self.spec_shape(), axis, coin), self.spec_shape()))
    }

    /// One proposal with its random choices given: `index_a` is cell A,
    /// `axis` and `coin` pick the neighbour B, and `pick` the occupant of A
    /// that is cloned and mutated. The mutant is inserted into B when its
    /// niche there is free; otherwise it replaces the occupant when the
    /// comparator keeps it and either its niche key or its cell changed.
    /// Only cell B can change.
    pub fn propose(&mut self, index_a: &Vec<usize>, axis: usize, coin: bool, pick: usize)
        requires
            old(self).wf(),
            index_in_shape(index_a@, old(self).spec_shape()),
            axis < old(self).spec_shape().len(),
            pick < old(self).spec_cells()[flat_index(zip_coords(index_a@, old(self).spec_shape())) as int]@.len(),
        ensures
            final(self).wf(),
            old(self).same_setting(&*final(self)),
            old(self).spec_target(index_a@, axis as int, coin) < old(self).spec_cells().len(),
            exists|source: V, mutant: Organism<V>, changed: bool|
                #[trigger] old(self).spec_proposal(
                    final(self).spec_cells(),
                    index_a@,
                    axis as int,
                    coin,
                    pick as int,
                    source,
                    mutant,
                    changed,
                ),
            ({
                let b = old(self).spec_target(index_a@, axis as int, coin) as int;
                old(self).spec_cells()[b]@.len() <= final(self).spec_cells()[b]@.len() <= old(self).spec_cells()[b]@.len()
                    + 1
            }),
    {
        let ghost shape = self.shape@;
        let a = self.flat_position(index_a);
        let mut index_b = index_a.clone();
        proof {
            assert(index_b@ =~= index_a@);
        }
        let top = self.shape[axis] - 1;
        let cur = index_a[axis];
        let up = if axis == 0 {
            true
        } else if axis == self.shape.len() - 1 {
            false
        } else {
            coin
        };
        let moved_to = if up {
            if cur < top {
                cur + 1
            } else {
                top
            }
        } else {
            if cur > 0 {
                cur - 1
            } else {
                0
            }
        };
        index_b.set(axis, moved_to);
        proof {
            assert(index_b@ =~= neighbor(index_a@, shape, axis as int, coin));
        }
        let b = self.flat_position(&index_b);

        let mut candidate = self.cells[a][pick].1.duplicate();
        let ghost source = candidate.spec_genotype();
        let old_feature = self.niche_key_of(&candidate);
        let hyper = if self.algo_config.use_hyperparameter_mapping {
            let hdims = self.problem_config.number_of_hyperparameters();
            let coords = self.zip_with_shape(index_a, hdims);
            self.problem_config.map_hyperparameters(&coords)
        } else {
            self.problem_config.constant_hyperparameters()
        };
        assert(hyper == old(self).spec_hyper_for(index_a@));
        let changed = candidate.mutate(&self.problem_config, &hyper);
        let feature_a = self.niche_key_of(&candidate);
        let score_a = candidate.score_with_cache(&self.problem_config, &self.problem);
        let ghost mutant = candidate;

        let ghost old_cells = self.cells@;
        let ghost old_b = self.cells@[b as int]@;
        let ghost uf = self.algo_config.use_features;
        let ghost cfg = self.problem_config;
        let ghost pb = self.problem;
        let mut cell_b: Vec<(u64, Organism<V>)> = Vec::new();
        self.cells.set_and_swap(b, &mut cell_b);
        assert(cell_ok(old_b, uf, cfg, pb));
        let moved = old_feature != feature_a || a != b;
        let cell_b = self.compete_in_niche(cell_b, feature_a, candidate, moved);
        self.cells.set(b, cell_b);
        proof {
            assert forall|c: int| 0 <= c < self.cells@.len() implies cell_ok(
                (#[trigger] self.cells@[c])@,
                self.algo_config.use_features,
                self.problem_config,
                self.problem,
            ) by {
                if c != b {
                    assert(self.cells@[c] == old_cells[c]);
                }
            }
            assert(changed_only_at(old_cells, self.cells@, b as int));
            assert(old(self).spec_proposal(
                self.spec_cells(),
                index_a@,
                axis as int,
                coin,
                pick as int,
                source,
                mutant,
                changed,
            ));
        }
    }

    /// One proposal-and-maybe-replace step with fresh random choices;
    /// returns copies of every occupant of every cell. Whatever was drawn,
    /// the new cells are the outcome of one `propose` on drawn values in
    /// range, so at most one cell changes and the population grows by at
    /// most one.
    pub fn update(&mut self) -> (r: Vec<Organism<V>>)
        requires
            old(self).wf(),
        ensures
            final(self).wf(),
            old(self).same_setting(&*final(self)),
            exists|index_a: Seq<usize>, axis: int, coin: bool, pick: int, source: V, mutant: Organism<V>, changed: bool|
                #[trigger] old(self).spec_proposal(
                    final(self).spec_cells(),
                    index_a,
                    axis,
                    coin,
                    pick,
                    source,
                    mutant,
                    changed,
                ),
            exists|b: int| #[trigger] changed_only_at(old(self).spec_cells(), final(self).spec_cells(), b),
            total_entries(old(self).spec_cells()) <= total_entries(final(self).spec_cells()) <= total_entries(
                old(self).spec_cells(),
            ) + 1,
            !final(self).spec_use_features() ==> forall|c: int|
                0 <= c < final(self).spec_cells().len() ==> (#[trigger] final(self).spec_cells()[c])@.len() == 1,
            r@.len() == total_entries(final(self).spec_cells()),
            !final(self).spec_use_features() ==> r@.len() == final(self).spec_cells().len(),
            r@.len() == occupants(final(self).spec_cells()).len(),
            forall|i: int| 0 <= i < r@.len() ==> copy_of(occupants(final(self).spec_cells())[i], #[trigger] r@[i]),
            r@.len() >= 1,
    {
        let n = self.shape.len();
        let mut index_a: Vec<usize> = Vec::new();
        let mut i: usize = 0;
        while i < n
            invariant
                self.wf(),
                n == self.shape@.len(),
                i <= n,
                index_a@.len() == i,
                forall|k: int| 0 <= k < i ==> #[trigger] index_a@[k] < self.shape@[k],
            decreases n - i,
        {
            let v = random_index(self.shape[i]);
            index_a.push(v);
            i = i + 1;
        }
        let axis = random_index(n);
        let coin = random_coin();
        let a = self.flat_position(&index_a);
        let pick = random_index(self.cells[a].len());
        let ghost b = self.spec_target(index_a@, axis as int, coin);
        self.propose(&index_a, axis, coin, pick);
        proof {
            assert(changed_only_at(old(self).spec_cells(), self.spec_cells(), b as int));
            lemma_total_entries_change(old(self).spec_cells(), self.spec_cells(), b as int);
            if !self.spec_use_features() {
                self.lemma_single_occupants();
                lemma_total_entries_bound(self.spec_cells(), 1);
                crate::niche::lemma_total_entries_at_least_cells(self.spec_cells());
            }
        }
        self.population()
    }

    /// The niche map `cell` once the scored `candidate`, filed under `key`,
    /// has competed in it (see `niche_step`).
    fn compete_in_niche(&self, cell: Vec<(u64, Organism<V>)>, key: u64, candidate: Organism<V>, moved: bool) -> (r: Vec<
        (u64, Organism<V>),
    >)
        requires
            cell_ok(cell@, self.algo_config.use_features, self.problem_config, self.problem),
            key == niche_key(self.algo_config.use_features, self.problem_config, candidate.spec_genotype()),
            candidate.cached_score() == Some(self.problem_config.spec_score(candidate.spec_genotype(), self.problem)),
        ensures
            niche_step(cell@, r@, key, candidate, moved, self.elitism, self.problem_config, self.problem),
            cell_ok(r@, self.algo_config.use_features, self.problem_config, self.problem),
            cell@.len() <= r@.len() <= cell@.len() + 1,
    {
        let ghost old_b = cell@;
        let ghost uf = self.algo_config.use_features;
        let ghost cfg = self.problem_config;
        let ghost pb = self.problem;
        let ghost mutant = candidate;
        let feature_a = key;
        let score_a = match candidate.get_score() {
            Some(x) => x,
            None => 0,
        };
        let mut cell_b = cell;
        match find_niche(&cell_b, feature_a) {
            None => {
                cell_b.push((feature_a, candidate));
                proof {
                    assert(keys_unique(cell_b@)) by {
                        assert forall|i: int, j: int|
                            0 <= i < cell_b@.len() && 0 <= j < cell_b@.len() && i != j implies (#[trigger] cell_b@[i]).0
                            != (#[trigger] cell_b@[j]).0 by {
                            if i < old_b.len() && j < old_b.len() {
                                assert(cell_b@[i] == old_b[i]);
                                assert(cell_b@[j] == old_b[j]);
                            } else if i < old_b.len() {
                                assert(cell_b@[i] == old_b[i]);
                            } else {
                                assert(cell_b@[j] == old_b[j]);
                            }
                        }
                    }
                    assert forall|j: int| 0 <= j < cell_b@.len() implies {
                        &&& (#[trigger] cell_b@[j]).0 == niche_key(uf, cfg, cell_b@[j].1.spec_genotype())
                        &&& cell_b@[j].1.cache_valid(&cfg, &pb)
                    } by {
                        if j < old_b.len() {
                            assert(cell_b@[j] == old_b[j]);
                        }
                    }
                }
            },
            Some(k) => {
                let (key_k, mut occupant) = cell_b.remove(k);
                let score_b = occupant.score_with_cache(&self.problem_config, &self.problem);
                let keep = self.elitism.select(score_a, score_b);
                if keep && moved {
                    cell_b.insert(k, (feature_a, candidate));
                    assert(cell_b@ =~= old_b.update(k as int, (feature_a, mutant)));
                } else {
                    cell_b.insert(k, (key_k, occupant));
                    assert(cell_b@ =~= old_b.update(k as int, (feature_a, occupant)));
                }
                proof {
                    assert(old_b[k as int].0 == feature_a);
                    assert(cell_b@.len() == old_b.len());
                    assert forall|j: int| 0 <= j < cell_b@.len() && j != k implies #[trigger] cell_b@[j] == old_b[j] by {
                        if j < k {
                        } else {
                        }
                    }
                    assert(cell_b@[k as int].0 == old_b[k as int].0);
                    assert(keys_unique(cell_b@)) by {
                        assert forall|i: int, j: int|
                            0 <= i < cell_b@.len() && 0 <= j < cell_b@.len() && i != j implies (#[trigger] cell_b@[i]).0
                            != (#[trigger] cell_b@[j]).0 by {
                            if i != k {
                                assert(cell_b@[i] == old_b[i]);
                            }
                            if j != k {
                                assert(cell_b@[j] == old_b[j]);
                            }
                        }
                    }
                    assert forall|j: int| 0 <= j < cell_b@.len() implies {
                        &&& (#[trigger] cell_b@[j]).0 == niche_key(uf, cfg, cell_b@[j].1.spec_genotype())
                        &&& cell_b@[j].1.cache_valid(&cfg, &pb)
                    } by {
                        if j != k {
                            assert(cell_b@[j] == old_b[j]);
                        } else {
                            assert(old_b[j].0 == niche_key(uf, cfg, old_b[j].1.spec_genotype()));
                            assert(old_b[j].1.cache_valid(&cfg, &pb));
                        }
                    }
                }
            },
        }
        cell_b
    }

    fn niche_key_of(&self, organism: &Organism<V>) -> (r: u64)
        ensures
            r == niche_key(self.algo_config.use_features, self.problem_config, organism.spec_genotype()),
    {
        if self.algo_config.use_features {
            self.problem_config.project(organism.genotype())
        } else {
            self.problem_config.default_features()
        }
    }

    /// Row-major position of a grid index.
    fn flat_position(&self, index: &Vec<usize>) -> (r: usize)
        requires
            self.wf(),
            index_in_shape(index@, self.shape@),
        ensures
            r == flat_index(zip_coords(index@, self.shape@)),
            r < self.cells@.len(),
    {
        let coords = self.zip_with_shape(index, index.len());
        let ncells = self.cells.len();
        proof {
            lemma_shape_count_zip(index@, self.shape@);
            assert(coords@ =~= zip_coords(index@, self.shape@));
        }
        match Coordinates::new(coords) {
            Some(c) => {
                proof {
                    lemma_flat_index_bound(c@);
                }
                c.flatten_coords()
            },
            None => {
                proof {
                    assert(in_bounds(zip_coords(index@, self.shape@)));
                }
                0
            },
        }
    }

    /// The first `n` axes of a grid index, each paired with its axis length.
    fn zip_with_shape(&self, index: &Vec<usize>, n: usize) -> (r: Vec<(usize, usize)>)
        requires
            self.wf(),
            index_in_shape(index@, self.shape@),
            n <= index@.len(),
        ensures
            r@ =~= zip_coords(index@, self.shape@).take(n as int),
            forall|i: int| 0 <= i < r@.len() ==> axis_ok(#[trigger] r@[i]),
    {
        let mut r: Vec<(usize, usize)> = Vec::new();
        let mut i: usize = 0;
        while i < n
            invariant
                self.wf(),
                index_in_shape(index@, self.shape@),
                n <= index@.len(),
                i <= n,
                r@ =~= zip_coords(index@, self.shape@).take(i as int),
                forall|k: int| 0 <= k < r@.len() ==> axis_ok(#[trigger] r@[k]),
            decreases n - i,
        {
            r.push((index[i], self.shape[i]));
            i = i + 1;
        }
        r
    }
}

proof fn lemma_shape_count_positive(shape: Seq<usize>)
    requires
        forall|i: int| 0 <= i < shape.len() ==> 1 <= #[trigger] shape[i],
    ensures
        shape_count(shape) >= 1,
    decreases shape.len(),
{
    if shape.len() > 0 {
        let p = shape.drop_last();
        assert forall|i: int| 0 <= i < p.len() implies 1 <= #[trigger] p[i] by {
            assert(p[i] == shape[i]);
        }
        lemma_shape_count_positive(p);
        assert(shape.last() == shape[shape.len() - 1]);
        let n = shape_count(p);
        let m = shape.last() as nat;
        assert(n * m >= 1) by (nonlinear_arith)
            requires
                n >= 1,
                m >= 1,
        ;
    }
}

} // verus!

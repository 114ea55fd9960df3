use vstd::prelude::*;

use crate::organism::Named;
use crate::random::random_below;

verus! {

/// A probability `num / den`, held exactly.
#[derive(Copy, Clone)]
pub struct Probability {
    pub num: u64,
    pub den: u64,
}

impl Probability {
    pub open spec fn wf(&self) -> bool {
        self.den > 0
    }

    /// One Bernoulli draw: `true` with probability `num / den`.
    pub fn sample(&self) -> (r: bool)
        requires
            self.wf(),
        ensures
            self.num == 0 ==> !r,
            self.num >= self.den ==> r,
    {
        random_below(self.den) < self.num
    }
}

/// Builds problem instances; called by the experiment driver, never by solvers.
pub trait ProblemInstanceGenerator<P> {
    fn generate_problem(&self) -> P;
}

/// A hyperparameter vector with a fixed number of components.
pub trait Hyperparameter: Sized {
    spec fn spec_number_of_hyperparameters() -> nat;

    fn number_of_hyperparameters() -> (r: usize)
        ensures
            r == Self::spec_number_of_hyperparameters(),
    ;
}

/// One grid axis position: index `.0` on an axis of length `.1`.
pub open spec fn axis_ok(c: (usize, usize)) -> bool {
    c.0 < c.1 && c.1 + 2 <= u64::MAX
}

/// Maps a grid position (one `(index, axis length)` pair per hyperparameter)
/// to hyperparameter values.
pub trait Environment<H: Hyperparameter> {
    fn number_of_hyperparameters(&self) -> (r: usize)
        ensures
            r == H::spec_number_of_hyperparameters(),
    {
        H::number_of_hyperparameters()
    }

    /// The hyperparameters of a grid position.
    spec fn spec_map_hyperparameters(&self, coordinates: Seq<(usize, usize)>) -> H;

    fn map_hyperparameters(&self, coordinates: &Vec<(usize, usize)>) -> (r: H)
        requires
            coordinates@.len() == H::spec_number_of_hyperparameters(),
            forall|i: int| 0 <= i < coordinates@.len() ==> axis_ok(#[trigger] coordinates@[i]),
        ensures
            r == self.spec_map_hyperparameters(coordinates@),
    ;
}

/// Hyperparameters of discrete problems: the chance of one more mutation.
#[derive(Copy, Clone)]
pub struct DiscreteHyperparameters {
    pub mutation_chance: Probability,
}

impl Hyperparameter for DiscreteHyperparameters {
    open spec fn spec_number_of_hyperparameters() -> nat {
        1
    }

    fn number_of_hyperparameters() -> (r: usize) {
        1
    }
}

/// The value in `(0, 1)` that an axis position stands for: `(index + 1) / (length + 2)`.
pub open spec fn axis_value(c: (usize, usize)) -> Probability {
    Probability { num: (c.0 + 1) as u64, den: (c.1 + 2) as u64 }
}

/// Maps the first grid axis linearly to the mutation chance.
#[derive(Copy, Clone)]
pub struct SpatialMapper {
    pub number_of_additional_dimensions: usize,
}

impl Named for SpatialMapper {
    fn name(&self) -> String {
        "Spatial mapping".to_owned()
    }
}

impl SpatialMapper {
    pub fn map_axis(coordinate: (usize, usize)) -> (r: Probability)
        requires
            axis_ok(coordinate),
        ensures
            r == axis_value(coordinate),
            r.wf(),
            0 < r.num < r.den,
    {
        let (val, max) = coordinate;
        Probability { num: val as u64 + 1, den: max as u64 + 2 }
    }
}

impl Environment<DiscreteHyperparameters> for SpatialMapper {
    /// The mutation chance is the value of the first axis.
    open spec fn spec_map_hyperparameters(&self, coordinates: Seq<(usize, usize)>) -> DiscreteHyperparameters {
        DiscreteHyperparameters { mutation_chance: axis_value(coordinates[0]) }
    }

    fn map_hyperparameters(&self, coordinates: &Vec<(usize, usize)>) -> (r: DiscreteHyperparameters) {
        DiscreteHyperparameters { mutation_chance: SpatialMapper::map_axis(coordinates[0]) }
    }
}

} // verus!

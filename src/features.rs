use vstd::prelude::*;

verus! {

/// Projects a genotype onto a discrete niche key.
pub trait FeatureMapper<V, P> {
    /// The niche key of a genotype: a function of the genotype alone.
    spec fn spec_project(&self, genome: V) -> u64;

    /// How many distinct keys the problem instance can produce.
    spec fn spec_feature_count(&self, problem: P) -> nat;

    /// The key used when niching is disabled.
    spec fn spec_default_features(&self) -> u64;

    fn number_of_possible_features(&self, problem: &P) -> (r: usize)
        ensures
            r == self.spec_feature_count(*problem),
    ;

    fn project(&self, genome: &V) -> (r: u64)
        ensures
            r == self.spec_project(*genome),
    ;

    fn default_features(&self) -> (r: u64)
        ensures
            r == self.spec_default_features(),
    ;
}

} // verus!

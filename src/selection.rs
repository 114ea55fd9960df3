use vstd::prelude::*;

use crate::organism::Named;
use crate::random::random_below;

verus! {

/// Acceptance policy: `select(score_a, score_b)` says whether a challenger
/// scoring `score_a` is kept over an incumbent scoring `score_b`.
pub trait Elitism {
    /// The outcomes `keep_a` that the policy allows for the two scores.
    spec fn spec_admits(&self, score_a: u64, score_b: u64, keep_a: bool) -> bool;

    fn select(&self, score_a: u64, score_b: u64) -> (keep_a: bool)
        ensures
            self.spec_admits(score_a, score_b, keep_a),
    ;
}

/// Accepts the challenger with probability `score_a / score_b` (capped at 1).
#[derive(Copy, Clone)]
pub struct MetropolisHastings {}

/// Deterministic: keeps the challenger when it scores at least as well.
#[derive(Copy, Clone)]
pub struct GreedySelection {}

impl Named for MetropolisHastings {
    fn name(&self) -> String {
        "Metropolis-Hastings".to_owned()
    }
}

impl Named for GreedySelection {
    fn name(&self) -> String {
        "Greedy_selection".to_owned()
    }
}

impl Elitism for GreedySelection {
    open spec fn spec_admits(&self, score_a: u64, score_b: u64, keep_a: bool) -> bool {
        keep_a == (score_a >= score_b)
    }

    fn select(&self, score_a: u64, score_b: u64) -> (keep_a: bool) {
        score_a >= score_b
    }
}

impl Elitism for MetropolisHastings {
    /// A zero score is never accepted; a score at least as high as a
    /// positive-or-zero incumbent is always accepted; in between the outcome
    /// is random.
    open spec fn spec_admits(&self, score_a: u64, score_b: u64, keep_a: bool) -> bool {
        &&& score_a == 0 ==> !keep_a
        &&& (score_a > 0 && score_a >= score_b) ==> keep_a
    }

    /// Draws `x` uniformly from `0..score_b` and accepts when `x < score_a`,
    /// which happens with probability `min(1, score_a / score_b)`.
    fn select(&self, score_a: u64, score_b: u64) -> (keep_a: bool) {
        if score_b == 0 {
            score_a > 0
        } else {
            random_below(score_b) < score_a
        }
    }
}

} // verus!

use rand::seq::SliceRandom;
use rand::Rng;
use vstd::prelude::*;

verus! {

/// Relies on rand's `Rng::gen_range(low, high)` on the thread-local generator:
/// a value in `[low, high)`; it panics when `low >= high`, which `requires` rules out.
#[verifier::external_body]
pub(crate) fn random_below(n: u64) -> (r: u64)
    requires
        n > 0,
    ensures
        r < n,
{
    rand::thread_rng().gen_range(0, n)
}

/// Relies on rand's `SliceRandom::shuffle` with the thread-local generator:
/// the items are permuted in place, none added or lost.
#[verifier::external_body]
pub(crate) fn shuffle(v: &mut Vec<usize>)
    ensures
        final(v)@.to_multiset() == old(v)@.to_multiset(),
{
    v.shuffle(&mut rand::thread_rng());
}

/// A uniformly drawn index into a collection of `len` items.
pub(crate) fn random_index(len: usize) -> (r: usize)
    requires
        len > 0,
    ensures
        r < len,
{
    let x = random_below(len as u64);
    x as usize
}

/// A fair coin.
pub(crate) fn random_coin() -> bool {
    random_below(2) == 1
}

} // verus!

use vstd::prelude::*;

use crate::features::FeatureMapper;
use crate::util::power;
use crate::organism::{Mutator, Named, OrganismGenerator, Scorer};
use crate::problems::{DiscreteHyperparameters, ProblemInstanceGenerator};
use crate::random::{random_below, random_index};

verus! {

/// A OneMax genotype: a byte string whose set bits are counted.
#[derive(Clone, PartialEq, Eq, Hash)]
pub struct OneMaxValue {
    pub values: Vec<u8>,
}

/// Number of differing bits over the first `k` bytes of two byte strings.
pub open spec fn hamming(a: Seq<u8>, b: Seq<u8>, k: nat) -> nat
    decreases k,
{
    if k == 0 {
        0
    } else {
        hamming(a, b, (k - 1) as nat) + byte_ones(a[k - 1] ^ b[k - 1])
    }
}

impl OneMaxValue {
    /// Hamming distance over the common length of the two genotypes
    /// (saturating at `u64::MAX`).
    pub fn distance_to(&self, other: &OneMaxValue) -> (r: u64)
        ensures
            r == saturate(hamming(
                self.values@,
                other.values@,
                if self.values@.len() <= other.values@.len() { self.values@.len() } else { other.values@.len() },
            )),
    {
        let n = if self.values.len() <= other.values.len() {
            self.values.len()
        } else {
            other.values.len()
        };
        let mut acc: u64 = 0;
        let mut i: usize = 0;
        while i < n
            invariant
                n <= self.values@.len(),
                n <= other.values@.len(),
                i <= n,
                acc == saturate(hamming(self.values@, other.values@, i as nat)),
            decreases n - i,
        {
            let bits = count_byte_ones(self.values[i] ^ other.values[i]);
            acc = if acc > u64::MAX - bits {
                u64::MAX
            } else {
                acc + bits
            };
            i = i + 1;
        }
        acc
    }
}

/// The OneMax problem instance: genotypes of `size` bytes.
#[derive(Copy, Clone)]
pub struct OneMax {
    pub size: usize,
}

impl Named for OneMax {
    fn name(&self) -> String {
        "OneMax".to_owned()
    }
}

impl ProblemInstanceGenerator<OneMax> for OneMax {
    fn generate_problem(&self) -> OneMax {
        *self
    }
}

/// Bit `k` of a byte.
pub open spec fn bit_of(b: u8, k: u8) -> nat {
    ((b >> k) & 1u8) as nat
}

/// Number of set bits of a byte.
pub open spec fn byte_ones(b: u8) -> nat {
    bit_of(b, 0) + bit_of(b, 1) + bit_of(b, 2) + bit_of(b, 3) + bit_of(b, 4) + bit_of(b, 5) + bit_of(b, 6) + bit_of(b, 7)
}

/// Number of set bits of a byte string.
pub open spec fn one_bits(s: Seq<u8>) -> nat
    decreases s.len(),
{
    if s.len() == 0 {
        0
    } else {
        one_bits(s.drop_last()) + byte_ones(s.last())
    }
}

/// A count saturated at `u64::MAX`.
pub open spec fn saturate(n: nat) -> u64 {
    if n <= u64::MAX {
        n as u64
    } else {
        u64::MAX
    }
}

fn bit(b: u8, k: u8) -> (r: u64)
    requires
        k < 8,
    ensures
        r == bit_of(b, k),
        r <= 1,
{
    let x: u8 = (b >> k) & 1u8;
    assert(x <= 1) by (bit_vector)
        requires
            x == (b >> k) & 1u8,
    ;
    x as u64
}

/// Set bits of one byte.
pub fn count_byte_ones(b: u8) -> (r: u64)
    ensures
        r == byte_ones(b),
        r <= 8,
{
    bit(b, 0) + bit(b, 1) + bit(b, 2) + bit(b, 3) + bit(b, 4) + bit(b, 5) + bit(b, 6) + bit(b, 7)
}

/// Scores a genotype by its number of set bits (saturating at `u64::MAX`);
/// ratios of scores are those of the fraction of set bits.
#[derive(Copy, Clone)]
pub struct OneMaxScorer {}

impl Scorer<OneMaxValue, OneMax> for OneMaxScorer {
    open spec fn spec_score(&self, genome: OneMaxValue, problem: OneMax) -> u64 {
        saturate(one_bits(genome.values@))
    }

    fn score(&self, genome: &OneMaxValue, problem: &OneMax) -> (r: u64) {
        let mut acc: u64 = 0;
        let mut i: usize = 0;
        while i < genome.values.len()
            invariant
                i <= genome.values@.len(),
                acc == saturate(one_bits(genome.values@.take(i as int))),
            decreases genome.values@.len() - i,
        {
            let bits = count_byte_ones(genome.values[i]);
            proof {
                assert(genome.values@.take(i as int + 1).drop_last() =~= genome.values@.take(i as int));
            }
            acc = if acc > u64::MAX - bits {
                u64::MAX
            } else {
                acc + bits
            };
            i = i + 1;
        }
        proof {
            assert(genome.values@.take(i as int) =~= genome.values@);
        }
        acc
    }
}

/// Flips random bits: while a draw with the mutation chance succeeds, one
/// uniformly chosen bit of one uniformly chosen byte is flipped.
#[derive(Copy, Clone)]
pub struct OneMaxMutator {}

impl Mutator<OneMaxValue, DiscreteHyperparameters> for OneMaxMutator {
    /// The genotype keeps its length; with a zero chance nothing changes.
    open spec fn spec_mutation(
        &self,
        before: OneMaxValue,
        hyperparameters: DiscreteHyperparameters,
        after: OneMaxValue,
        changed: bool,
    ) -> bool {
        &&& after.values@.len() == before.values@.len()
        &&& hyperparameters.mutation_chance.num == 0 ==> !changed
    }

    fn mutate(&self, genome: &mut OneMaxValue, hyperparameters: &DiscreteHyperparameters) -> (changed: bool) {
        let chance = hyperparameters.mutation_chance;
        let mut mutated = false;
        let mut budget: u64 = u64::MAX;
        while budget > 0 && genome.values.len() > 0 && chance.den > 0 && chance.sample()
            invariant
                !mutated ==> *genome == *old(genome),
                chance == hyperparameters.mutation_chance,
                genome.values@.len() == old(genome).values@.len(),
                chance.num == 0 ==> !mutated,
            decreases budget,
        {
            let i = random_index(genome.values.len());
            let shift = random_below(8) as u8;
            let bit: u8 = 1u8 << shift;
            let flipped = genome.values[i] ^ bit;
            genome.values.set(i, flipped);
            mutated = true;
            budget = budget - 1;
        }
        mutated
    }
}

/// Niches OneMax genotypes by their leading bytes.
#[derive(Copy, Clone)]
pub struct OneMaxMapper {
    pub number_of_octets: usize,
}

impl Named for OneMaxMapper {
    fn name(&self) -> String {
        "One Max bit mapper".to_owned()
    }
}

/// Number of leading bytes a key is made of: at most eight, so that it fits.
pub open spec fn key_octets(number_of_octets: usize, len: nat) -> nat {
    let k = if number_of_octets <= 8 { number_of_octets as nat } else { 8 };
    if k <= len {
        k
    } else {
        len
    }
}

/// The first `k` bytes read as a big-endian integer.
pub open spec fn octets_key(s: Seq<u8>, k: nat) -> nat
    decreases k,
{
    if k == 0 || k > s.len() {
        0
    } else {
        octets_key(s, (k - 1) as nat) * 256 + s[k - 1] as nat
    }
}

/// `256^k`, saturated at `usize::MAX`.
pub open spec fn feature_space(k: nat) -> nat
    decreases k,
{
    if k == 0 {
        1
    } else if feature_space((k - 1) as nat) > usize::MAX / 256 {
        usize::MAX as nat
    } else {
        feature_space((k - 1) as nat) * 256
    }
}

proof fn lemma_octets_key_bound(s: Seq<u8>, k: nat)
    requires
        k <= s.len(),
    ensures
        octets_key(s, k) < power(256, k),
    decreases k,
{
    if k > 0 {
        lemma_octets_key_bound(s, (k - 1) as nat);
        let x = octets_key(s, (k - 1) as nat);
        let p = power(256, (k - 1) as nat);
        let b = s[k - 1] as nat;
        assert(x * 256 + b < p * 256) by (nonlinear_arith)
            requires
                x < p,
                b < 256,
        ;
    }
}

impl FeatureMapper<OneMaxValue, OneMax> for OneMaxMapper {
    /// The leading `min(number_of_octets, 8, length)` bytes, big-endian:
    /// keys hold at most eight octets, so with more octets mapped, genotypes
    /// that differ only past the eighth byte share a niche.
    open spec fn spec_project(&self, genome: OneMaxValue) -> u64 {
        octets_key(genome.values@, key_octets(self.number_of_octets, genome.values@.len())) as u64
    }

    open spec fn spec_feature_count(&self, problem: OneMax) -> nat {
        feature_space(self.number_of_octets as nat)
    }

    open spec fn spec_default_features(&self) -> u64 {
        0
    }

    /// `256^number_of_octets`, saturated at `usize::MAX`.
    fn number_of_possible_features(&self, problem: &OneMax) -> (r: usize) {
        let mut r: usize = 1;
        let mut j: usize = 0;
        while j < self.number_of_octets
            invariant
                j <= self.number_of_octets,
                r == feature_space(j as nat),
            decreases self.number_of_octets - j,
        {
            r = if r > usize::MAX / 256 {
                usize::MAX
            } else {
                r * 256
            };
            j = j + 1;
        }
        r
    }

    fn project(&self, genome: &OneMaxValue) -> (r: u64) {
        let len = genome.values.len();
        let mut k: usize = if self.number_of_octets <= 8 {
            self.number_of_octets
        } else {
            8
        };
        if k > len {
            k = len;
        }
        let mut key: u64 = 0;
        let mut i: usize = 0;
        while i < k
            invariant
                k <= 8,
                k <= genome.values@.len(),
                k == key_octets(self.number_of_octets, genome.values@.len()),
                i <= k,
                key == octets_key(genome.values@, i as nat),
                key < power(256, i as nat),
            decreases k - i,
        {
            proof {
                lemma_octets_key_bound(genome.values@, (i + 1) as nat);
                lemma_power_256_fits(i as nat + 1);
            }
            key = key * 256 + genome.values[i] as u64;
            i = i + 1;
        }
        key
    }

    fn default_features(&self) -> (r: u64) {
        0
    }
}

proof fn lemma_feature_space_exact(k: nat)
    requires
        power(256, k) <= usize::MAX,
    ensures
        feature_space(k) == power(256, k),
    decreases k,
{
    if k > 0 {
        let p = power(256, (k - 1) as nat);
        assert(p * 256 >= p) by (nonlinear_arith);
        lemma_feature_space_exact((k - 1) as nat);
        assert(p <= (usize::MAX as int) / 256) by (nonlinear_arith)
            requires
                p * 256 <= usize::MAX,
        ;
    }
}

impl OneMaxMapper {
    /// Keys stay below the reported number of possible features whenever
    /// that number, `256^number_of_octets`, fits in a `usize`.
    pub proof fn lemma_keys_below_count(&self, genome: OneMaxValue, problem: OneMax)
        requires
            power(256, self.number_of_octets as nat) <= usize::MAX,
        ensures
            (self.spec_project(genome) as nat) < self.spec_feature_count(problem),
    {
        let s = genome.values@;
        let k = key_octets(self.number_of_octets, s.len());
        lemma_octets_key_bound(s, k);
        lemma_feature_space_exact(self.number_of_octets as nat);
        crate::util::lemma_power_prefix(256, k, self.number_of_octets as nat);
        if self.number_of_octets > 8 {
            crate::util::lemma_power_prefix(256, 8, self.number_of_octets as nat);
        }
        lemma_power_256_fits(k);
    }
}

proof fn lemma_power_256_fits(k: nat)
    requires
        k <= 8,
    ensures
        power(256, k) <= u64::MAX + 1,
{
    reveal_with_fuel(crate::util::power, 9);
}

/// Generates the all-zero genotype of the instance's size.
#[derive(Copy, Clone)]
pub struct OneMaxGenerator {}

impl Named for OneMaxGenerator {
    fn name(&self) -> String {
        "Only zeroes generator".to_owned()
    }
}

impl OrganismGenerator<OneMaxValue, OneMax> for OneMaxGenerator {
    /// `size` zero bytes.
    open spec fn spec_generated(&self, problem: OneMax, genome: OneMaxValue) -> bool {
        genome.values@ == Seq::new(problem.size as nat, |i: int| 0u8)
    }

    fn generate(&self, problem: &OneMax) -> (r: OneMaxValue) {
        let mut values: Vec<u8> = Vec::new();
        let mut i: usize = 0;
        while i < problem.size
            invariant
                i <= problem.size,
                values@ == Seq::new(i as nat, |k: int| 0u8),
            decreases problem.size - i,
        {
            values.push(0u8);
            proof {
                assert(values@ =~= Seq::new((i + 1) as nat, |k: int| 0u8));
            }
            i = i + 1;
        }
        OneMaxValue { values }
    }
}

} // verus!

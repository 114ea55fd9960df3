use vstd::prelude::*;
use vstd::seq_lib::to_multiset_update;

use crate::features::FeatureMapper;
use crate::organism::{Mutator, Named, OrganismGenerator, Scorer};
use crate::problems::{DiscreteHyperparameters, ProblemInstanceGenerator};
use crate::random::{random_below, shuffle};
use crate::simple::distinct_pair;

verus! {

/// A tour: the order in which the cities are visited.
#[derive(Clone, PartialEq, Eq, Hash)]
pub struct TSPValue<T> {
    pub permutation: Vec<T>,
}

/// A problem instance: the distance between every two cities (a square
/// matrix) and the largest and smallest distance between distinct cities.
#[derive(Clone)]
pub struct TSPInstance {
    distances: Vec<Vec<u64>>,
    max_dist: u64,
    min_dist: u64,
    number_of_cities: usize,
}

/// The distance matrix is `n` by `n`.
pub open spec fn square(d: Seq<Vec<u64>>, n: nat) -> bool {
    d.len() == n && forall|i: int| 0 <= i < n ==> (#[trigger] d[i])@.len() == n
}

impl TSPInstance {
    pub closed spec fn spec_n(&self) -> nat {
        self.number_of_cities as nat
    }

    pub closed spec fn spec_distance(&self, i: int, j: int) -> u64 {
        self.distances@[i]@[j]
    }

    pub closed spec fn spec_max_dist(&self) -> u64 {
        self.max_dist
    }

    pub closed spec fn spec_min_dist(&self) -> u64 {
        self.min_dist
    }

    pub closed spec fn wf(&self) -> bool {
        square(self.distances@, self.number_of_cities as nat)
    }

    /// Builds an instance; with fewer than two cities both extremes are 0.
    pub fn new(distances: Vec<Vec<u64>>, number_of_cities: usize) -> (r: TSPInstance)
        requires
            square(distances@, number_of_cities as nat),
        ensures
            r.wf(),
            r.spec_n() == number_of_cities,
            forall|i: int, j: int|
                0 <= i < number_of_cities && 0 <= j < number_of_cities ==> #[trigger] r.spec_distance(i, j)
                    == distances@[i]@[j],
            forall|i: int, j: int|
                0 <= i < number_of_cities && 0 <= j < number_of_cities && i != j ==> r.spec_min_dist()
                    <= #[trigger] r.spec_distance(i, j) <= r.spec_max_dist(),
            number_of_cities >= 2 ==> exists|i: int, j: int|
                0 <= i < number_of_cities && 0 <= j < number_of_cities && i != j && #[trigger] r.spec_distance(i, j)
                    == r.spec_max_dist(),
            number_of_cities >= 2 ==> exists|i: int, j: int|
                0 <= i < number_of_cities && 0 <= j < number_of_cities && i != j && #[trigger] r.spec_distance(i, j)
                    == r.spec_min_dist(),
            number_of_cities < 2 ==> r.spec_max_dist() == 0 && r.spec_min_dist() == 0,
    {
        let n = number_of_cities;
        let mut max_dist: u64 = 0;
        let mut min_dist: u64 = 0;
        let mut found = false;
        let ghost mut wmax: (int, int) = (0, 0);
        let ghost mut wmin: (int, int) = (0, 0);
        let mut i: usize = 0;
        while i < n
            invariant
                square(distances@, n as nat),
                i <= n,
                found <==> (i >= 1 && n >= 2),
                forall|a: int, b: int|
                    0 <= a < i && 0 <= b < n && a != b ==> min_dist <= #[trigger] distances@[a]@[b] <= max_dist,
                found ==> 0 <= wmax.0 < n && 0 <= wmax.1 < n && wmax.0 != wmax.1 && distances@[wmax.0]@[wmax.1] == max_dist,
                found ==> 0 <= wmin.0 < n && 0 <= wmin.1 < n && wmin.0 != wmin.1 && distances@[wmin.0]@[wmin.1] == min_dist,
                !found ==> max_dist == 0 && min_dist == 0,
            decreases n - i,
        {
            let mut j: usize = 0;
            let row = &distances[i];
            while j < n
                invariant
                    square(distances@, n as nat),
                    i < n,
                    j <= n,
                    *row == distances@[i as int],
                    found <==> ((i >= 1 && n >= 2) || j >= 2 || (j == 1 && i != 0)),
                    forall|a: int, b: int|
                        0 <= a < i && 0 <= b < n && a != b ==> min_dist <= #[trigger] distances@[a]@[b] <= max_dist,
                    forall|b: int| 0 <= b < j && b != i ==> min_dist <= #[trigger] distances@[i as int]@[b] <= max_dist,
                    found ==> 0 <= wmax.0 < n && 0 <= wmax.1 < n && wmax.0 != wmax.1 && distances@[wmax.0]@[wmax.1] == max_dist,
                    found ==> 0 <= wmin.0 < n && 0 <= wmin.1 < n && wmin.0 != wmin.1 && distances@[wmin.0]@[wmin.1] == min_dist,
                    !found ==> max_dist == 0 && min_dist == 0,
                decreases n - j,
            {
                if j != i {
                    let d = row[j];
                    if !found || d > max_dist {
                        max_dist = d;
                        proof {
                            wmax = (i as int, j as int);
                        }
                    }
                    if !found || d < min_dist {
                        min_dist = d;
                        proof {
                            wmin = (i as int, j as int);
                        }
                    }
                    found = true;
                }
                j = j + 1;
            }
            i = i + 1;
        }
        let r = TSPInstance { distances, max_dist, min_dist, number_of_cities };
        proof {
            if n >= 2 {
                assert(r.spec_distance(wmax.0, wmax.1) == r.spec_max_dist());
                assert(r.spec_distance(wmin.0, wmin.1) == r.spec_min_dist());
            }
        }
        r
    }

    /// Whether the distance matrix is `n` by `n`.
    pub fn is_square(&self) -> (r: bool)
        ensures
            r == self.wf(),
    {
        if self.distances.len() != self.number_of_cities {
            return false;
        }
        let mut i: usize = 0;
        while i < self.distances.len()
            invariant
                i <= self.distances@.len(),
                self.distances@.len() == self.number_of_cities,
                forall|k: int| 0 <= k < i ==> (#[trigger] self.distances@[k])@.len() == self.number_of_cities,
            decreases self.distances@.len() - i,
        {
            if self.distances[i].len() != self.number_of_cities {
                return false;
            }
            i = i + 1;
        }
        true
    }

    pub fn number_of_cities(&self) -> (r: usize)
        ensures
            r == self.spec_n(),
    {
        self.number_of_cities
    }

    pub fn max_dist(&self) -> (r: u64)
        ensures
            r == self.spec_max_dist(),
    {
        self.max_dist
    }

    pub fn min_dist(&self) -> (r: u64)
        ensures
            r == self.spec_min_dist(),
    {
        self.min_dist
    }

    /// Distance from city `city_1` to city `city_2`.
    pub fn distance(&self, city_1: usize, city_2: usize) -> (r: u64)
        requires
            self.wf(),
            city_1 < self.spec_n(),
            city_2 < self.spec_n(),
        ensures
            r == self.spec_distance(city_1 as int, city_2 as int),
    {
        self.distances[city_1][city_2]
    }
}

/// `a + b`, saturated at `u64::MAX`.
pub open spec fn sat_add(a: u64, b: u64) -> u64 {
    if a + b <= u64::MAX {
        (a + b) as u64
    } else {
        u64::MAX
    }
}

/// `a * b`, saturated at `u64::MAX`.
pub open spec fn sat_mul(a: u64, b: u64) -> u64 {
    if a * b <= u64::MAX {
        (a * b) as u64
    } else {
        u64::MAX
    }
}

/// Every city of the tour exists in an instance of `n` cities.
pub open spec fn valid_tour(tour: Seq<usize>, n: nat) -> bool {
    forall|i: int| 0 <= i < tour.len() ==> #[trigger] tour[i] < n
}

/// Length of the first `k` legs of the closed tour (leg `i` goes from city
/// `i` to city `i + 1`, the last one back to the start), saturated.
pub open spec fn tour_length(inst: TSPInstance, tour: Seq<usize>, k: nat) -> u64
    decreases k,
{
    if k == 0 || tour.len() == 0 {
        0
    } else {
        let i = k - 1;
        sat_add(
            tour_length(inst, tour, (k - 1) as nat),
            inst.spec_distance(tour[i] as int, tour[(i + 1) % (tour.len() as int)] as int),
        )
    }
}

/// Scores a tour by how much shorter it is than `max_dist` per leg:
/// `max_dist * len - tour length` (zero for a tour through unknown cities).
/// Ratios of scores are those of the tour lengths normalized by the worst case.
#[derive(Copy, Clone)]
pub struct TSPScorer {}

impl Scorer<TSPValue<usize>, TSPInstance> for TSPScorer {
    open spec fn spec_score(&self, genome: TSPValue<usize>, problem: TSPInstance) -> u64 {
        let tour = genome.permutation@;
        if problem.wf() && valid_tour(tour, problem.spec_n()) {
            let worst = sat_mul(problem.spec_max_dist(), tour.len() as u64);
            let length = tour_length(problem, tour, tour.len());
            if worst >= length {
                (worst - length) as u64
            } else {
                0
            }
        } else {
            0
        }
    }

    fn score(&self, genome: &TSPValue<usize>, problem: &TSPInstance) -> (r: u64) {
        let tour = &genome.permutation;
        let len = tour.len();
        let n = problem.number_of_cities();
        if !problem.is_square() {
            return 0;
        }
        let mut i: usize = 0;
        while i < len
            invariant
                i <= len,
                len == tour@.len(),
                tour@ == genome.permutation@,
                n == problem.spec_n(),
                forall|k: int| 0 <= k < i ==> #[trigger] tour@[k] < n,
            decreases len - i,
        {
            if tour[i] >= n {
                assert(genome.permutation@[i as int] >= problem.spec_n());
                assert(!valid_tour(genome.permutation@, problem.spec_n()));
                return 0;
            }
            i = i + 1;
        }
        let mut length: u64 = 0;
        let mut k: usize = 0;
        while k < len
            invariant
                problem.wf(),
                k <= len,
                len == tour@.len(),
                tour@ == genome.permutation@,
                n == problem.spec_n(),
                valid_tour(tour@, n as nat),
                length == tour_length(*problem, tour@, k as nat),
            decreases len - k,
        {
            let next = if k + 1 < len {
                k + 1
            } else {
                0
            };
            proof {
                assert(next as int == (k as int + 1) % (len as int)) by (nonlinear_arith)
                    requires
                        next == (if k + 1 < len { k + 1 } else { 0 }),
                        k < len,
                ;
            }
            let d = problem.distance(tour[k], tour[next]);
            length = if length > u64::MAX - d {
                u64::MAX
            } else {
                length + d
            };
            k = k + 1;
        }
        let max_dist = problem.max_dist();
        let worst: u64 = if len > 0 && max_dist > u64::MAX / (len as u64) {
            proof {
                let m = max_dist as int;
                let l = len as int;
                assert(m * l > u64::MAX) by (nonlinear_arith)
                    requires
                        m > (u64::MAX as int) / l,
                        l > 0,
                ;
            }
            u64::MAX
        } else {
            proof {
                let m = max_dist as int;
                let l = len as int;
                assert(m * l <= u64::MAX) by (nonlinear_arith)
                    requires
                        l == 0 || m <= (u64::MAX as int) / l,
                        l >= 0,
                ;
            }
            max_dist * (len as u64)
        };
        if worst >= length {
            worst - length
        } else {
            0
        }
    }
}

/// Swaps cities: while a draw with the mutation chance succeeds, two
/// distinct uniformly chosen positions trade places.
#[derive(Copy, Clone)]
pub struct TSPMutator {}

impl<T: Copy> Mutator<TSPValue<T>, DiscreteHyperparameters> for TSPMutator {
    /// The tour keeps its cities (a permutation stays a permutation); with a
    /// zero chance nothing changes.
    open spec fn spec_mutation(
        &self,
        before: TSPValue<T>,
        hyperparameters: DiscreteHyperparameters,
        after: TSPValue<T>,
        changed: bool,
    ) -> bool {
        &&& after.permutation@.len() == before.permutation@.len()
        &&& after.permutation@.to_multiset() == before.permutation@.to_multiset()
        &&& hyperparameters.mutation_chance.num == 0 ==> !changed
    }

    fn mutate(&self, genome: &mut TSPValue<T>, hyperparameters: &DiscreteHyperparameters) -> (changed: bool) {
        let chance = hyperparameters.mutation_chance;
        let mut changed = false;
        let mut budget: u64 = u64::MAX;
        while budget > 0 && genome.permutation.len() >= 2 && chance.den > 0 && chance.sample()
            invariant
                !changed ==> *genome == *old(genome),
                chance == hyperparameters.mutation_chance,
                genome.permutation@.len() == old(genome).permutation@.len(),
                genome.permutation@.to_multiset() == old(genome).permutation@.to_multiset(),
                chance.num == 0 ==> !changed,
            decreases budget,
        {
            let (index_a, index_b) = distinct_pair(genome.permutation.len());
            let city_a = genome.permutation[index_a];
            let city_b = genome.permutation[index_b];
            let ghost s0 = genome.permutation@;
            genome.permutation.set(index_b, city_a);
            let ghost s1 = genome.permutation@;
            genome.permutation.set(index_a, city_b);
            proof {
                to_multiset_update(s0, index_b as int, city_a);
                to_multiset_update(s1, index_a as int, city_b);
                assert(s1[index_a as int] == city_a);
                assert(s0.to_multiset().insert(city_a).remove(city_b).insert(city_b).remove(city_a) =~= s0.to_multiset()) by {
                    broadcast use vstd::multiset::group_multiset_axioms;
                    s0.to_multiset_ensures();
                    assert(s0.to_multiset().contains(city_b)) by {
                        assert(s0[index_b as int] == city_b);
                    }
                }
            }
            changed = true;
            budget = budget - 1;
        }
        changed
    }
}

/// Niches tours by their first cities.
#[derive(Copy, Clone)]
pub struct TSPFeatureMapper {
    pub number_cities_mapped: usize,
}

impl Named for TSPFeatureMapper {
    fn name(&self) -> String {
        "Keep first N cities mapper".to_owned()
    }
}

/// Number of ordered choices of `k` distinct cities out of `n`,
/// `n * (n - 1) * ... * (n - k + 1)`, saturated at `usize::MAX` along the way.
pub open spec fn ordered_choices(n: nat, k: nat) -> nat
    decreases k,
{
    if k == 0 {
        1
    } else {
        let p = ordered_choices(n, (k - 1) as nat);
        let f: nat = if n >= k { (n - (k - 1)) as nat } else { 0 };
        if p * f > usize::MAX {
            usize::MAX as nat
        } else {
            p * f
        }
    }
}

/// The first `k` cities read as digits in base `base`, modulo `2^64`.
pub open spec fn tour_key(tour: Seq<usize>, base: nat, k: nat) -> nat
    decreases k,
{
    if k == 0 || k > tour.len() {
        0
    } else {
        (tour_key(tour, base, (k - 1) as nat) * base + tour[k - 1] as nat) % 0x1_0000_0000_0000_0000
    }
}

impl FeatureMapper<TSPValue<usize>, TSPInstance> for TSPFeatureMapper {
    /// The first `number_cities_mapped` cities (fewer for a shorter tour) as
    /// digits in base `tour length`, modulo `2^64`: distinct prefixes of a
    /// tour of `n` cities give distinct keys as long as `n^k` fits in 64
    /// bits, and may share a niche beyond that. Keys range up to `n^k`,
    /// above the `n! / (n - k)!` ordered choices that
    /// `number_of_possible_features` reports.
    open spec fn spec_project(&self, genome: TSPValue<usize>) -> u64 {
        let tour = genome.permutation@;
        let k: nat = if self.number_cities_mapped <= tour.len() { self.number_cities_mapped as nat } else { tour.len() };
        tour_key(tour, tour.len(), k) as u64
    }

    open spec fn spec_feature_count(&self, problem: TSPInstance) -> nat {
        ordered_choices(problem.spec_n(), self.number_cities_mapped as nat)
    }

    open spec fn spec_default_features(&self) -> u64 {
        0
    }

    fn number_of_possible_features(&self, problem: &TSPInstance) -> (r: usize) {
        let n = problem.number_of_cities();
        let mut r: usize = 1;
        let mut i: usize = 0;
        while i < self.number_cities_mapped
            invariant
                i <= self.number_cities_mapped,
                n == problem.spec_n(),
                r == ordered_choices(n as nat, i as nat),
            decreases self.number_cities_mapped - i,
        {
            let f: usize = if n > i {
                n - i
            } else {
                0
            };
            proof {
                assert(f == (if n as nat >= (i + 1) as nat { (n - i) as nat } else { 0nat }));
            }
            r = if f == 0 {
                0
            } else if r > usize::MAX / f {
                proof {
                    let a = r as int;
                    let b = f as int;
                    assert(a * b > usize::MAX) by (nonlinear_arith)
                        requires
                            a > (usize::MAX as int) / b,
                            b > 0,
                    ;
                }
                usize::MAX
            } else {
                proof {
                    let a = r as int;
                    let b = f as int;
                    assert(a * b <= usize::MAX) by (nonlinear_arith)
                        requires
                            a <= (usize::MAX as int) / b,
                            b > 0,
                    ;
                }
                r * f
            };
            i = i + 1;
        }
        r
    }

    fn project(&self, genome: &TSPValue<usize>) -> (r: u64) {
        let tour = &genome.permutation;
        let len = tour.len();
        let k = if self.number_cities_mapped <= len {
            self.number_cities_mapped
        } else {
            len
        };
        let mut key: u64 = 0;
        let mut i: usize = 0;
        while i < k
            invariant
                k <= len,
                len == tour@.len(),
                i <= k,
                key == tour_key(tour@, len as nat, i as nat),
            decreases k - i,
        {
            proof {
                let a = key as int;
                let b = len as int;
                let c = tour@[i as int] as int;
                assert(a * b + c <= u128::MAX) by (nonlinear_arith)
                    requires
                        0 <= a <= u64::MAX,
                        0 <= b <= u64::MAX,
                        0 <= c <= u64::MAX,
                ;
            }
            let wide: u128 = (key as u128) * (len as u128) + (tour[i] as u128);
            key = (wide % 0x1_0000_0000_0000_0000u128) as u64;
            i = i + 1;
        }
        key
    }

    fn default_features(&self) -> (r: u64) {
        0
    }
}

/// Generates a uniformly shuffled tour through all cities.
pub struct TSPRandomSolution {}

impl TSPRandomSolution {
    pub fn new() -> (r: TSPRandomSolution) {
        TSPRandomSolution {}
    }

    /// The cities `0..n` in random order.
    pub fn random_tour(n: usize) -> (r: TSPValue<usize>)
        ensures
            r.permutation@.to_multiset() == all_cities(n as nat).to_multiset(),
            r.permutation@.len() == n,
    {
        let mut v: Vec<usize> = Vec::new();
        let mut i: usize = 0;
        while i < n
            invariant
                i <= n,
                v@ == all_cities(i as nat),
            decreases n - i,
        {
            v.push(i);
            proof {
                assert(v@ =~= all_cities((i + 1) as nat));
            }
            i = i + 1;
        }
        let ghost before = v@;
        shuffle(&mut v);
        proof {
            before.to_multiset_ensures();
            v@.to_multiset_ensures();
        }
        TSPValue { permutation: v }
    }
}

impl Named for TSPRandomSolution {
    fn name(&self) -> String {
        "TSP simple generator".to_owned()
    }
}

/// The cities `0..n`, each once.
pub open spec fn all_cities(n: nat) -> Seq<usize> {
    Seq::new(n, |i: int| i as usize)
}

impl OrganismGenerator<TSPValue<usize>, TSPInstance> for TSPRandomSolution {
    /// A permutation of all cities of the instance.
    open spec fn spec_generated(&self, problem: TSPInstance, genome: TSPValue<usize>) -> bool {
        genome.permutation@.to_multiset() == all_cities(problem.spec_n()).to_multiset()
    }

    fn generate(&self, problem: &TSPInstance) -> (r: TSPValue<usize>) {
        TSPRandomSolution::random_tour(problem.number_of_cities())
    }
}

/// Random instances: cities at integer coordinates in `0..100` on each
/// axis, distances rounded down to whole units.
pub struct SimpleTSPInstanceGenerator {
    pub number_of_cities: usize,
    pub number_of_dimensions: usize,
}

impl Named for SimpleTSPInstanceGenerator {
    fn name(&self) -> String {
        "Simple TSP instance generator".to_owned()
    }
}

/// The integer square root: the largest `r` with `r * r <= x`.
pub fn integer_sqrt(x: u64) -> (r: u64)
    ensures
        is_integer_sqrt(r, x),
{
    let mut lo: u128 = 0;
    let mut hi: u128 = 0x1_0000_0000;
    proof {
        assert(hi * hi == 0x1_0000_0000_0000_0000) by (nonlinear_arith)
            requires
                hi == 0x1_0000_0000,
        ;
    }
    while hi - lo > 1
        invariant
            lo < hi <= 0x1_0000_0000,
            lo * lo <= x,
            x < hi * hi,
        decreases hi - lo,
    {
        let mid = lo + (hi - lo) / 2;
        proof {
            assert(mid * mid <= 0x1_0000_0000_0000_0000) by (nonlinear_arith)
                requires
                    mid <= 0x1_0000_0000,
            ;
        }
        if mid * mid <= x as u128 {
            lo = mid;
        } else {
            hi = mid;
        }
    }
    proof {
        assert(hi == lo + 1);
    }
    lo as u64
}

/// Sum of the squared coordinate differences over the first `k` axes,
/// each square and each partial sum saturated at `u64::MAX`.
pub open spec fn squared_distance_upto(a: Seq<u64>, b: Seq<u64>, k: nat) -> u64
    decreases k,
{
    if k == 0 {
        0
    } else {
        let i = k - 1;
        let diff: int = if a[i] >= b[i] { a[i] - b[i] } else { b[i] - a[i] };
        let sq: u64 = if diff * diff <= u64::MAX { (diff * diff) as u64 } else { u64::MAX };
        sat_add(squared_distance_upto(a, b, (k - 1) as nat), sq)
    }
}

/// Squared Euclidean distance of two integer points, saturated at `u64::MAX`.
pub fn squared_distance(a: &Vec<u64>, b: &Vec<u64>) -> (r: u64)
    requires
        a@.len() == b@.len(),
    ensures
        r == squared_distance_upto(a@, b@, a@.len()),
{
    let mut sum: u64 = 0;
    let mut d: usize = 0;
    while d < a.len()
        invariant
            a@.len() == b@.len(),
            d <= a@.len(),
            sum == squared_distance_upto(a@, b@, d as nat),
        decreases a@.len() - d,
    {
        let x = a[d];
        let y = b[d];
        let diff = if x >= y {
            x - y
        } else {
            y - x
        };
        let sq: u64 = if diff <= 0xffff_ffff {
            proof {
                assert(diff * diff <= 0xffff_ffff * 0xffff_ffff) by (nonlinear_arith)
                    requires
                        diff <= 0xffff_ffff,
                ;
            }
            diff * diff
        } else {
            proof {
                assert(diff * diff > u64::MAX) by (nonlinear_arith)
                    requires
                        diff > 0xffff_ffff,
                ;
            }
            u64::MAX
        };
        sum = if sum > u64::MAX - sq {
            u64::MAX
        } else {
            sum + sq
        };
        d = d + 1;
    }
    sum
}

/// `d` is the integer square root of `x`.
pub open spec fn is_integer_sqrt(d: u64, x: u64) -> bool {
    d * d <= x < (d + 1) * (d + 1)
}

impl SimpleTSPInstanceGenerator {
    /// The instance over given city positions, each with `dims` coordinates:
    /// the distance between two cities is the integer square root of their
    /// squared Euclidean distance.
    pub fn instance_from_points(points: &Vec<Vec<u64>>, dims: usize) -> (r: TSPInstance)
        requires
            forall|c: int| 0 <= c < points@.len() ==> (#[trigger] points@[c])@.len() == dims,
        ensures
            r.wf(),
            r.spec_n() == points@.len(),
            forall|i: int, j: int|
                0 <= i < points@.len() && 0 <= j < points@.len() ==> is_integer_sqrt(
                    #[trigger] r.spec_distance(i, j),
                    squared_distance_upto(points@[i]@, points@[j]@, dims as nat),
                ),
    {
        let n = points.len();
        let mut distances: Vec<Vec<u64>> = Vec::new();
        let mut a: usize = 0;
        while a < n
            invariant
                a <= n,
                n == points@.len(),
                forall|c: int| 0 <= c < n ==> (#[trigger] points@[c])@.len() == dims,
                distances@.len() == a,
                forall|c: int| 0 <= c < a ==> (#[trigger] distances@[c])@.len() == n,
                forall|i: int, j: int|
                    0 <= i < a && 0 <= j < n ==> is_integer_sqrt(
                        #[trigger] distances@[i]@[j],
                        squared_distance_upto(points@[i]@, points@[j]@, dims as nat),
                    ),
            decreases n - a,
        {
            let mut row: Vec<u64> = Vec::new();
            let mut b: usize = 0;
            while b < n
                invariant
                    a < n,
                    b <= n,
                    n == points@.len(),
                    forall|c: int| 0 <= c < n ==> (#[trigger] points@[c])@.len() == dims,
                    row@.len() == b,
                    forall|j: int|
                        0 <= j < b ==> is_integer_sqrt(
                            #[trigger] row@[j],
                            squared_distance_upto(points@[a as int]@, points@[j]@, dims as nat),
                        ),
                decreases n - b,
            {
                let sq = squared_distance(&points[a], &points[b]);
                row.push(integer_sqrt(sq));
                b = b + 1;
            }
            distances.push(row);
            proof {
                assert forall|i: int, j: int|
                    0 <= i < a + 1 && 0 <= j < n implies is_integer_sqrt(
                    #[trigger] distances@[i]@[j],
                    squared_distance_upto(points@[i]@, points@[j]@, dims as nat),
                ) by {
                    if i == a {
                        assert(distances@[i] == row);
                    }
                }
            }
            a = a + 1;
        }
        TSPInstance::new(distances, n)
    }
}

impl ProblemInstanceGenerator<TSPInstance> for SimpleTSPInstanceGenerator {
    /// Cities at uniformly drawn integer coordinates in `0..100`.
    fn generate_problem(&self) -> TSPInstance {
        let n = self.number_of_cities;
        let mut cities: Vec<Vec<u64>> = Vec::new();
        let mut i: usize = 0;
        while i < n
            invariant
                i <= n,
                cities@.len() == i,
                forall|c: int| 0 <= c < i ==> (#[trigger] cities@[c])@.len() == self.number_of_dimensions,
            decreases n - i,
        {
            let mut coords: Vec<u64> = Vec::new();
            let mut d: usize = 0;
            while d < self.number_of_dimensions
                invariant
                    d <= self.number_of_dimensions,
                    coords@.len() == d,
                decreases self.number_of_dimensions - d,
            {
                coords.push(random_below(100));
                d = d + 1;
            }
            cities.push(coords);
            i = i + 1;
        }
        SimpleTSPInstanceGenerator::instance_from_points(&cities, self.number_of_dimensions)
    }
}

} // verus!

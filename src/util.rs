use vstd::prelude::*;

verus! {

/// `base` raised to `exp`.
pub open spec fn power(base: nat, exp: nat) -> nat
    decreases exp,
{
    if exp == 0 {
        1
    } else {
        power(base, (exp - 1) as nat) * base
    }
}

/// The number of cells of a grid: the product of the axis lengths.
pub open spec fn cell_count(c: Seq<(usize, usize)>) -> nat
    decreases c.len(),
{
    if c.len() == 0 {
        1
    } else {
        cell_count(c.drop_last()) * (c.last().1 as nat)
    }
}

/// Row-major position of a grid coordinate (the last axis varies fastest).
pub open spec fn flat_index(c: Seq<(usize, usize)>) -> nat
    decreases c.len(),
{
    if c.len() == 0 {
        0
    } else {
        flat_index(c.drop_last()) * (c.last().1 as nat) + (c.last().0 as nat)
    }
}

/// Every index lies inside its axis.
pub open spec fn in_bounds(c: Seq<(usize, usize)>) -> bool {
    forall|i: int| 0 <= i < c.len() ==> (#[trigger] c[i]).0 < c[i].1
}

pub proof fn lemma_flat_index_bound(c: Seq<(usize, usize)>)
    requires
        in_bounds(c),
    ensures
        flat_index(c) < cell_count(c),
    decreases c.len(),
{
    if c.len() > 0 {
        let p = c.drop_last();
        assert(in_bounds(p)) by {
            assert forall|i: int| 0 <= i < p.len() implies (#[trigger] p[i]).0 < p[i].1 by {
                assert(p[i] == c[i]);
            }
        }
        lemma_flat_index_bound(p);
        let f = flat_index(p);
        let n = cell_count(p);
        let m = c.last().1 as nat;
        let v = c.last().0 as nat;
        assert(c.last() == c[c.len() - 1]);
        assert(f * m + v < n * m) by (nonlinear_arith)
            requires
                f < n,
                v < m,
        ;
    }
}

/// A longer coordinate prefix never has fewer cells.
pub proof fn lemma_cell_count_prefix(c: Seq<(usize, usize)>, k: int)
    requires
        in_bounds(c),
        0 <= k <= c.len(),
    ensures
        cell_count(c.take(k)) <= cell_count(c),
        cell_count(c) >= 1,
    decreases c.len(),
{
    if c.len() > 0 {
        let p = c.drop_last();
        assert(in_bounds(p)) by {
            assert forall|i: int| 0 <= i < p.len() implies (#[trigger] p[i]).0 < p[i].1 by {
                assert(p[i] == c[i]);
            }
        }
        assert(c.last() == c[c.len() - 1]);
        let m = c.last().1 as nat;
        if k == c.len() {
            assert(c.take(k) =~= c);
            lemma_cell_count_prefix(p, 0);
        } else {
            assert(c.take(k) =~= p.take(k));
            lemma_cell_count_prefix(p, k);
        }
        let n = cell_count(p);
        assert(n * m >= n) by (nonlinear_arith)
            requires
                m >= 1,
        ;
    }
}

pub proof fn lemma_power_monotone(a: nat, b: nat, e: nat)
    requires
        a <= b,
    ensures
        power(a, e) <= power(b, e),
    decreases e,
{
    if e > 0 {
        lemma_power_monotone(a, b, (e - 1) as nat);
        let x = power(a, (e - 1) as nat);
        let y = power(b, (e - 1) as nat);
        assert(x * a <= y * b) by (nonlinear_arith)
            requires
                x <= y,
                a <= b,
        ;
    }
}

pub proof fn lemma_power_positive(b: nat, e: nat)
    requires
        b >= 1,
    ensures
        power(b, e) >= 1,
        e >= 1 ==> power(b, e) >= b,
    decreases e,
{
    if e > 0 {
        lemma_power_positive(b, (e - 1) as nat);
        let x = power(b, (e - 1) as nat);
        assert(x * b >= b) by (nonlinear_arith)
            requires
                x >= 1,
        ;
    }
}

pub proof fn lemma_power_prefix(b: nat, j: nat, e: nat)
    requires
        b >= 1,
        j <= e,
    ensures
        power(b, j) <= power(b, e),
    decreases e,
{
    if j < e {
        lemma_power_prefix(b, j, (e - 1) as nat);
        lemma_power_positive(b, (e - 1) as nat);
        let x = power(b, (e - 1) as nat);
        assert(x <= x * b) by (nonlinear_arith)
            requires
                b >= 1,
        ;
    }
}

/// Whether `base^exp <= limit`, computed without overflow.
pub fn power_at_most(base: usize, exp: usize, limit: usize) -> (r: bool)
    requires
        base >= 1,
    ensures
        r == (power(base as nat, exp as nat) <= limit),
{
    let mut acc: usize = 1;
    let mut j: usize = 0;
    while j < exp
        invariant
            base >= 1,
            j <= exp,
            acc == power(base as nat, j as nat),
            acc <= limit || j == 0,
        decreases exp - j,
    {
        if acc > limit / base {
            proof {
                let a = acc as int;
                let bs = base as int;
                let l = limit as int;
                assert(a * bs > l) by (nonlinear_arith)
                    requires
                        a > l / bs,
                        bs >= 1,
                ;
                lemma_power_prefix(base as nat, (j + 1) as nat, exp as nat);
            }
            return false;
        }
        proof {
            let a = acc as int;
            let bs = base as int;
            let l = limit as int;
            assert(a * bs <= l) by (nonlinear_arith)
                requires
                    a <= l / bs,
                    bs >= 1,
            ;
        }
        acc = acc * base;
        j = j + 1;
    }
    acc <= limit
}

/// The integer `d`-th root of `n`: the largest `r` with `r^d <= n`.
pub fn integer_root(n: usize, d: usize) -> (r: usize)
    requires
        n >= 1,
        d >= 1,
    ensures
        r >= 1,
        power(r as nat, d as nat) <= n,
        power((r + 1) as nat, d as nat) > n,
{
    let mut r: usize = 1;
    proof {
        lemma_power_positive(1, d as nat);
        lemma_power_monotone(1, 1, d as nat);
        assert(power(1, d as nat) == 1) by {
            lemma_power_one(d as nat);
        }
    }
    while r < n && power_at_most(r + 1, d, n)
        invariant
            1 <= r <= n,
            d >= 1,
            power(r as nat, d as nat) <= n,
        decreases n - r,
    {
        r = r + 1;
    }
    if r >= n {
        proof {
            lemma_power_positive((r + 1) as nat, d as nat);
        }
    }
    r
}

pub proof fn lemma_power_one(e: nat)
    ensures
        power(1, e) == 1,
    decreases e,
{
    if e > 0 {
        lemma_power_one((e - 1) as nat);
    }
}

/// A grid position: one `(index, axis length)` pair per axis.
pub struct Coordinates {
    coords: Vec<(usize, usize)>,
}

impl View for Coordinates {
    type V = Seq<(usize, usize)>;

    closed spec fn view(&self) -> Seq<(usize, usize)> {
        self.coords@
    }
}

impl Coordinates {
    /// Accepts the pairs only when every index lies inside its axis.
    pub fn new(coordinates: Vec<(usize, usize)>) -> (r: Option<Coordinates>)
        ensures
            r is Some <==> in_bounds(coordinates@),
            r is Some ==> r->Some_0@ == coordinates@,
    {
        let mut i: usize = 0;
        while i < coordinates.len()
            invariant
                i <= coordinates@.len(),
                forall|k: int| 0 <= k < i ==> (#[trigger] coordinates@[k]).0 < coordinates@[k].1,
            decreases coordinates@.len() - i,
        {
            let (v, m) = coordinates[i];
            if v >= m {
                assert(coordinates@[i as int].0 >= coordinates@[i as int].1);
                return None;
            }
            i = i + 1;
        }
        Some(Coordinates { coords: coordinates })
    }

    /// The indices alone, one per axis.
    pub fn get_only_coords(&self) -> (r: Vec<usize>)
        ensures
            r@.len() == self@.len(),
            forall|i: int| 0 <= i < r@.len() ==> #[trigger] r@[i] == self@[i].0,
    {
        let mut r: Vec<usize> = Vec::new();
        let mut i: usize = 0;
        while i < self.coords.len()
            invariant
                i <= self.coords@.len(),
                r@.len() == i,
                forall|k: int| 0 <= k < i ==> #[trigger] r@[k] == self.coords@[k].0,
            decreases self.coords@.len() - i,
        {
            r.push(self.coords[i].0);
            i = i + 1;
        }
        r
    }

    pub fn get_coords_slice(&self) -> (r: &[(usize, usize)])
        ensures
            r@ == self@,
    {
        self.coords.as_slice()
    }

    /// Row-major position of this coordinate in a flat buffer of
    /// `cell_count(self@)` cells.
    pub fn flatten_coords(&self) -> (r: usize)
        requires
            in_bounds(self@),
            cell_count(self@) <= usize::MAX,
        ensures
            r == flat_index(self@),
            r < cell_count(self@),
    {
        let ghost c = self.coords@;
        let mut acc: usize = 0;
        let mut i: usize = 0;
        while i < self.coords.len()
            invariant
                c == self.coords@,
                in_bounds(c),
                cell_count(c) <= usize::MAX,
                i <= c.len(),
                acc == flat_index(c.take(i as int)),
            decreases c.len() - i,
        {
            let (v, m) = self.coords[i];
            proof {
                let t = c.take(i as int + 1);
                assert(t.drop_last() =~= c.take(i as int));
                assert(t.last() == c[i as int]);
                assert(in_bounds(t));
                lemma_flat_index_bound(t);
                lemma_cell_count_prefix(c, i as int + 1);
            }
            acc = acc * m + v;
            i = i + 1;
        }
        proof {
            assert(c.take(i as int) =~= c);
            lemma_flat_index_bound(c);
        }
        acc
    }
}

} // verus!

use vstd::prelude::*;

use vstd::set_lib::{lemma_int_range, lemma_len_subset, set_int_range};

use crate::config::ProblemConfig;
use crate::organism::Organism;
use crate::selection::Elitism;

verus! {

/// A niche map: `(feature key, occupant)` pairs with pairwise distinct keys.
pub open spec fn keys_unique<V>(cell: Seq<(u64, Organism<V>)>) -> bool {
    forall|i: int, j: int| 0 <= i < cell.len() && 0 <= j < cell.len() && i != j ==> (#[trigger] cell[i]).0 != (#[trigger] cell[j]).0
}

/// Whether some occupant of the niche map sits under `key`.
pub open spec fn has_key<V>(cell: Seq<(u64, Organism<V>)>, key: u64) -> bool {
    exists|i: int| 0 <= i < cell.len() && (#[trigger] cell[i]).0 == key
}

/// Position of the occupant stored under `key`, if any.
pub fn find_niche<V>(cell: &Vec<(u64, Organism<V>)>, key: u64) -> (r: Option<usize>)
    ensures
        r is Some ==> r->Some_0 < cell@.len() && cell@[r->Some_0 as int].0 == key,
        r is None ==> !has_key(cell@, key),
{
    let mut i: usize = 0;
    while i < cell.len()
        invariant
            i <= cell@.len(),
            forall|j: int| 0 <= j < i ==> (#[trigger] cell@[j]).0 != key,
        decreases cell@.len() - i,
    {
        if cell[i].0 == key {
            return Some(i);
        }
        i = i + 1;
    }
    None
}

/// A niche map whose keys are all below `bound` holds at most `bound` occupants.
pub proof fn lemma_unique_keys_bound<V>(cell: Seq<(u64, Organism<V>)>, bound: nat)
    requires
        keys_unique(cell),
        forall|j: int| 0 <= j < cell.len() ==> ((#[trigger] cell[j]).0 as nat) < bound,
    ensures
        cell.len() <= bound,
{
    let ks = cell.map_values(|e: (u64, Organism<V>)| e.0 as int);
    assert(ks.no_duplicates()) by {
        assert forall|i: int, j: int| 0 <= i < ks.len() && 0 <= j < ks.len() && i != j implies ks[i] != ks[j] by {
            assert(cell[i].0 != cell[j].0);
        }
    }
    ks.unique_seq_to_set();
    let range = set_int_range(0, bound as int);
    assert(ks.to_set().subset_of(range)) by {
        assert forall|x: int| ks.to_set().contains(x) implies range.contains(x) by {
            let j = choose|j: int| 0 <= j < ks.len() && ks[j] == x;
            assert(cell[j].0 < bound);
        }
    }
    lemma_int_range(0, bound as int);
    lemma_len_subset(ks.to_set(), range);
}

/// A niche map whose keys all equal one value holds at most one occupant.
pub proof fn lemma_single_key_bound<V>(cell: Seq<(u64, Organism<V>)>, key: u64)
    requires
        keys_unique(cell),
        forall|j: int| 0 <= j < cell.len() ==> (#[trigger] cell[j]).0 == key,
    ensures
        cell.len() <= 1,
{
    if cell.len() >= 2 {
        assert(cell[0].0 == cell[1].0);
    }
}

/// Niche maps of at most `bound` occupants each hold at most
/// `cells.len() * bound` in all.
pub proof fn lemma_total_entries_bound<V>(cells: Seq<Vec<(u64, Organism<V>)>>, bound: nat)
    requires
        forall|c: int| 0 <= c < cells.len() ==> (#[trigger] cells[c])@.len() <= bound,
    ensures
        total_entries(cells) <= cells.len() * bound,
    decreases cells.len(),
{
    if cells.len() > 0 {
        let p = cells.drop_last();
        assert forall|c: int| 0 <= c < p.len() implies (#[trigger] p[c])@.len() <= bound by {
            assert(p[c] == cells[c]);
        }
        lemma_total_entries_bound(p, bound);
        assert(cells.last() == cells[cells.len() - 1]);
        let t = total_entries(p);
        let n = p.len();
        assert(t + cells.last()@.len() <= (n + 1) * bound) by (nonlinear_arith)
            requires
                t <= n * bound,
                cells.last()@.len() <= bound,
        ;
    }
}

/// Number of occupants over a sequence of niche maps.
pub open spec fn total_entries<V>(cells: Seq<Vec<(u64, Organism<V>)>>) -> nat
    decreases cells.len(),
{
    if cells.len() == 0 {
        0
    } else {
        total_entries(cells.drop_last()) + cells.last()@.len()
    }
}

pub proof fn lemma_total_entries_at_least_cells<V>(cells: Seq<Vec<(u64, Organism<V>)>>)
    requires
        forall|c: int| 0 <= c < cells.len() ==> (#[trigger] cells[c])@.len() >= 1,
    ensures
        total_entries(cells) >= cells.len(),
    decreases cells.len(),
{
    if cells.len() > 0 {
        let p = cells.drop_last();
        assert forall|c: int| 0 <= c < p.len() implies (#[trigger] p[c])@.len() >= 1 by {
            assert(p[c] == cells[c]);
        }
        lemma_total_entries_at_least_cells(p);
        assert(cells.last() == cells[cells.len() - 1]);
    }
}

/// The two sequences agree everywhere except possibly at position `b`.
pub open spec fn changed_only_at<T>(before: Seq<T>, after: Seq<T>, b: int) -> bool {
    &&& before.len() == after.len()
    &&& 0 <= b < before.len()
    &&& forall|c: int| 0 <= c < before.len() && c != b ==> #[trigger] after[c] == before[c]
}

/// `b` is a copy of `a`: a clone of its genotype with the same cache.
pub open spec fn copy_of<V: Clone>(a: Organism<V>, b: Organism<V>) -> bool {
    cloned(a.spec_genotype(), b.spec_genotype()) && a.cached_score() == b.cached_score()
}

/// Every occupant of every niche map, in cell order.
pub open spec fn occupants<V>(cells: Seq<Vec<(u64, Organism<V>)>>) -> Seq<Organism<V>>
    decreases cells.len(),
{
    if cells.len() == 0 {
        Seq::empty()
    } else {
        occupants(cells.drop_last()) + cells.last()@.map_values(|e: (u64, Organism<V>)| e.1)
    }
}

pub proof fn lemma_occupants_len<V>(cells: Seq<Vec<(u64, Organism<V>)>>)
    ensures
        occupants(cells).len() == total_entries(cells),
    decreases cells.len(),
{
    if cells.len() > 0 {
        lemma_occupants_len(cells.drop_last());
    }
}

/// Changing one niche map changes the total by the difference of its sizes.
pub proof fn lemma_total_entries_change<V>(x: Seq<Vec<(u64, Organism<V>)>>, y: Seq<Vec<(u64, Organism<V>)>>, b: int)
    requires
        changed_only_at(x, y, b),
    ensures
        total_entries(y) + x[b]@.len() == total_entries(x) + y[b]@.len(),
    decreases x.len(),
{
    let n = x.len() - 1;
    if b == n {
        assert(x.drop_last() =~= y.drop_last());
    } else {
        lemma_total_entries_change(x.drop_last(), y.drop_last(), b);
        assert(x.last() == x[n] && y.last() == y[n]);
    }
}

/// What a niche map becomes once the scored `mutant`, filed under `key`,
/// has competed in it: it takes a free niche; otherwise it replaces the
/// occupant when `moved` and the comparator keeps it, and else the occupant
/// stays, its score cache filled.
pub open spec fn niche_step<V, P, H, C: ProblemConfig<V, P, H>, El: Elitism>(
    before: Seq<(u64, Organism<V>)>,
    after: Seq<(u64, Organism<V>)>,
    key: u64,
    mutant: Organism<V>,
    moved: bool,
    elitism: El,
    config: C,
    problem: P,
) -> bool {
    if !has_key(before, key) {
        after == before.push((key, mutant))
    } else {
        exists|j: int|
            0 <= j < before.len() && (#[trigger] before[j]).0 == key && {
                let incumbent = before[j].1.scored(&config, &problem);
                let score_a = mutant.cached_score()->Some_0;
                let score_b = incumbent.cached_score()->Some_0;
                ||| (after == before.update(j, (key, mutant)) && moved && elitism.spec_admits(score_a, score_b, true))
                ||| (after == before.update(j, (key, incumbent)) && (!moved || elitism.spec_admits(
                    score_a,
                    score_b,
                    false,
                )))
            }
    }
}

/// Copies every occupant of every niche map, in cell order.
pub fn collect_organisms<V: Clone>(cells: &Vec<Vec<(u64, Organism<V>)>>) -> (r: Vec<Organism<V>>)
    ensures
        r@.len() == total_entries(cells@),
        r@.len() == occupants(cells@).len(),
        forall|i: int| 0 <= i < r@.len() ==> copy_of(occupants(cells@)[i], #[trigger] r@[i]),
{
    let mut r: Vec<Organism<V>> = Vec::new();
    let mut c: usize = 0;
    while c < cells.len()
        invariant
            c <= cells@.len(),
            r@.len() == total_entries(cells@.take(c as int)),
            r@.len() == occupants(cells@.take(c as int)).len(),
            forall|i: int| 0 <= i < r@.len() ==> copy_of(occupants(cells@.take(c as int))[i], #[trigger] r@[i]),
        decreases cells@.len() - c,
    {
        let cell = &cells[c];
        let ghost base = r@.len();
        let ghost prev = occupants(cells@.take(c as int));
        let mut j: usize = 0;
        while j < cell.len()
            invariant
                j <= cell@.len(),
                c < cells@.len(),
                *cell == cells@[c as int],
                base == prev.len(),
                r@.len() == base + j,
                r@.len() == total_entries(cells@.take(c as int)) + j,
                forall|i: int| 0 <= i < base ==> copy_of(prev[i], #[trigger] r@[i]),
                forall|i: int| base <= i < base + j ==> copy_of(cell@[i - base].1, #[trigger] r@[i]),
            decreases cell@.len() - j,
        {
            let o = cell[j].1.duplicate();
            r.push(o);
            j = j + 1;
        }
        proof {
            let t = cells@.take(c as int + 1);
            assert(t.drop_last() =~= cells@.take(c as int));
            assert(t.last() == *cell);
            let next = occupants(t);
            assert(next == prev + cell@.map_values(|e: (u64, Organism<V>)| e.1));
            assert forall|i: int| 0 <= i < r@.len() implies copy_of(next[i], #[trigger] r@[i]) by {
                if i >= base {
                    assert(next[i] == cell@[i - base].1);
                } else {
                    assert(next[i] == prev[i]);
                }
            }
        }
        c = c + 1;
    }
    proof {
        assert(cells@.take(c as int) =~= cells@);
    }
    r
}

} // verus!

//! Sea-level calibration: the elevation percentile that matches the target
//! share of land.
use vstd::prelude::*;
use crate::sorting::{
    count_key_at_most, count_key_below, lemma_count_permutation, lemma_sorted_counts, sort_pairs,
};

verus! {

/// Each value paired with its position.
pub open spec fn indexed(e: Seq<i64>) -> Seq<(i64, usize)> {
    Seq::new(e.len(), |i: int| (e[i], i as usize))
}

/// Number of cells whose elevation is strictly above `level`.
pub open spec fn land_cells(e: Seq<i64>, level: int) -> int {
    e.len() - count_key_at_most(indexed(e), level)
}

/// Sorted position whose value becomes the sea level, for a target land share
/// `target` (thousandths) over `n` cells.
pub open spec fn percentile_index(n: int, target: int) -> int {
    let k = n * (1000 - target) / 1000;
    if k < n - 1 {
        k
    } else {
        n - 1
    }
}

/// `v` is the value at sorted position `k` of `e`.
pub open spec fn order_statistic(e: Seq<i64>, k: int, v: int) -> bool {
    count_key_below(indexed(e), v) <= k < count_key_at_most(indexed(e), v)
}

/// The value at sorted position `percentile_index(n, target)` of the
/// elevations: the sea level before any random shift.
pub fn percentile_elevation(e: &Vec<i64>, target: i64) -> (v: i64)
    requires
        e@.len() >= 1,
        e@.len() <= 1_000_000_000,
        0 <= target <= 1000,
    ensures
        order_statistic(e@, percentile_index(e@.len() as int, target as int), v as int),
        exists|i: int| 0 <= i < e@.len() && e@[i] == v,
{
    let n = e.len();
    let mut pairs: Vec<(i64, usize)> = Vec::new();
    let mut i: usize = 0;
    while i < n
        invariant
            n == e@.len(),
            i <= n,
            pairs@ == indexed(e@).take(i as int),
        decreases n - i,
    {
        pairs.push((e[i], i));
        assert(pairs@ =~= indexed(e@).take(i + 1));
        i = i + 1;
    }
    assert(pairs@ =~= indexed(e@));
    let ghost unsorted = pairs@;
    sort_pairs(&mut pairs);
    proof {
        vstd::seq_lib::to_multiset_len(pairs@);
        vstd::seq_lib::to_multiset_len(unsorted);
    }
    proof {
        assert(0 <= (n as int) * (1000 - target as int) <= 1_000_000_000_000) by (nonlinear_arith)
            requires
                0 <= n <= 1_000_000_000,
                0 <= target <= 1000,
        ;
    }
    let k0: usize = ((n as u64) * ((1000 - target) as u64) / 1000) as usize;
    let k: usize = if k0 < n - 1 {
        k0
    } else {
        n - 1
    };
    let v = pairs[k].0;
    proof {
        lemma_sorted_counts(pairs@, k as int);
        lemma_count_permutation(pairs@, unsorted, v as int);
        vstd::seq_lib::to_multiset_contains(pairs@, pairs@[k as int]);
        assert(pairs@.contains(pairs@[k as int]));
        vstd::seq_lib::to_multiset_contains(unsorted, pairs@[k as int]);
        let j = choose|j: int| 0 <= j < unsorted.len() && unsorted[j] == pairs@[k as int];
        assert(e@[j] == v);
    }
    v
}

/// Number of cells strictly above `level`.
pub fn count_land(e: &Vec<i64>, level: i64) -> (c: usize)
    ensures
        c == land_cells(e@, level as int),
{
    let mut above: usize = 0;
    let mut i: usize = 0;
    while i < e.len()
        invariant
            i <= e@.len(),
            above == i - count_key_at_most(indexed(e@).take(i as int), level as int),
            count_key_at_most(indexed(e@).take(i as int), level as int) <= i,
        decreases e@.len() - i,
    {
        proof {
            let t = indexed(e@).take(i + 1);
            assert(t.drop_last() =~= indexed(e@).take(i as int));
        }
        if e[i] > level {
            above = above + 1;
        }
        i = i + 1;
    }
    assert(indexed(e@).take(i as int) =~= indexed(e@));
    above
}

proof fn lemma_counts_monotone(s: Seq<(i64, usize)>, a: int, b: int)
    requires
        a < b,
    ensures
        count_key_at_most(s, a) <= count_key_below(s, b),
    decreases s.len(),
{
    if s.len() > 0 {
        lemma_counts_monotone(s.drop_last(), a, b);
    }
}

proof fn lemma_distinct_counts(s: Seq<(i64, usize)>, x: int)
    requires
        forall|i: int, j: int| 0 <= i < j < s.len() ==> (#[trigger] s[i]).0 != (#[trigger] s[j]).0,
    ensures
        count_key_at_most(s, x) <= count_key_below(s, x) + 1,
        count_key_below(s, x) <= count_key_at_most(s, x),
    decreases s.len(),
{
    if s.len() > 0 {
        let t = s.drop_last();
        lemma_distinct_counts(t, x);
        if s.last().0 == x {
            lemma_no_key(t, x);
        }
    }
}

proof fn lemma_no_key(s: Seq<(i64, usize)>, x: int)
    requires
        forall|i: int| 0 <= i < s.len() ==> (#[trigger] s[i]).0 != x,
    ensures
        count_key_at_most(s, x) == count_key_below(s, x),
    decreases s.len(),
{
    if s.len() > 0 {
        lemma_no_key(s.drop_last(), x);
    }
}

/// Only one value is the value at a given sorted position.
pub proof fn lemma_order_statistic_unique(e: Seq<i64>, k: int, v: int, w: int)
    requires
        order_statistic(e, k, v),
        order_statistic(e, k, w),
    ensures
        v == w,
{
    if v < w {
        lemma_counts_monotone(indexed(e), v, w);
    } else if w < v {
        lemma_counts_monotone(indexed(e), w, v);
    }
}

/// With pairwise distinct elevations and no random shift, the number of land
/// cells is the target share of the cells within one cell:
/// `target * n - 1000 <= 1000 * land <= target * n`; a full target leaves
/// exactly one ocean cell, the lowest. A target of zero leaves no land,
/// whatever the elevations.
pub proof fn lemma_land_fraction(e: Seq<i64>, target: int, level: int)
    requires
        e.len() >= 1,
        0 <= target <= 1000,
        order_statistic(e, percentile_index(e.len() as int, target), level),
    ensures
        target == 0 ==> land_cells(e, level) == 0,
        (forall|i: int, j: int| 0 <= i < j < e.len() ==> e[i] != e[j]) ==> target * e.len() - 1000
            <= 1000 * land_cells(e, level) <= target * e.len(),
        (target == 1000 && forall|i: int, j: int| 0 <= i < j < e.len() ==> e[i] != e[j])
            ==> land_cells(e, level) == e.len() - 1,
{
    let n = e.len() as int;
    let k = percentile_index(n, target);
    let s = indexed(e);
    lemma_count_bounded(s, level);
    if target == 0 {
        assert(n * (1000 - 0) / 1000 == n) by (nonlinear_arith);
    }
    if forall|i: int, j: int| 0 <= i < j < e.len() ==> e[i] != e[j] {
        assert forall|i: int, j: int| 0 <= i < j < s.len() implies (#[trigger] s[i]).0 != (
        #[trigger] s[j]).0 by {
            assert(e[i] != e[j]);
        }
        lemma_distinct_counts(s, level);
        let m = n * (1000 - target) / 1000;
        assert(1000 * m <= n * (1000 - target) < 1000 * m + 1000) by (nonlinear_arith)
            requires
                m == n * (1000 - target) / 1000,
        ;
        assert(0 <= target * n) by (nonlinear_arith)
            requires
                0 <= target,
                n >= 1,
        ;
        assert(target * n <= 1000 * n) by (nonlinear_arith)
            requires
                target <= 1000,
                n >= 1,
        ;
        assert(n * (1000 - target) == 1000 * n - target * n) by (nonlinear_arith);
        assert(count_key_at_most(s, level) == k + 1);
        assert(land_cells(e, level) == n - 1 - k);
        if target == 1000 {
            assert(n * (1000 - 1000) / 1000 == 0) by (nonlinear_arith);
            assert(k == 0);
        }
    }
}

proof fn lemma_count_bounded(s: Seq<(i64, usize)>, x: int)
    ensures
        count_key_at_most(s, x) <= s.len(),
    decreases s.len(),
{
    if s.len() > 0 {
        lemma_count_bounded(s.drop_last(), x);
    }
}

} // verus!

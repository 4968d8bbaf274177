//! Flow accumulation over the downhill drainage graph.
use vstd::prelude::*;
use crate::grid::HexGrid;
use crate::hydrology::{downhill, lemma_rank_step, rank};
use crate::sorting::{pair_le, sort_pairs, sorted_pairs};

verus! {

broadcast use vstd::seq_lib::group_to_multiset_ensures;

/// Water that a cell passes on besides what it received: half its precipitation.
pub open spec fn bonus(precip: Seq<i64>, c: int) -> int {
    precip[c] / 2
}

/// Number of cells among the first `k` above `sea`.
pub open spec fn land_total(e: Seq<i64>, sea: int, k: int) -> int
    decreases k,
{
    if k <= 0 {
        0
    } else {
        land_total(e, sea, k - 1) + if e[k - 1] > sea {
            1int
        } else {
            0
        }
    }
}

/// Sum of `acc` over the first `k` cells selected by `mask`.
pub open spec fn masked_sum(acc: Seq<i64>, mask: Seq<bool>, k: int) -> int
    decreases k,
{
    if k <= 0 {
        0
    } else {
        masked_sum(acc, mask, k - 1) + if mask[k - 1] {
            acc[k - 1] as int
        } else {
            0
        }
    }
}

/// Cells with no downhill target: basins, and ocean cells.
pub open spec fn roots(flow: Seq<Option<(usize, usize)>>) -> Seq<bool> {
    Seq::new(flow.len(), |c: int| flow[c] is None)
}

/// Sum of the bonuses of the first `k` cells that have a target and are selected by `mask`.
pub open spec fn bonus_sum(
    precip: Seq<i64>,
    flow: Seq<Option<(usize, usize)>>,
    mask: Seq<bool>,
    k: int,
) -> int
    decreases k,
{
    if k <= 0 {
        0
    } else {
        bonus_sum(precip, flow, mask, k - 1) + if mask[k - 1] && flow[k - 1] is Some {
            bonus(precip, k - 1)
        } else {
            0
        }
    }
}

pub open spec fn all_true(n: nat) -> Seq<bool> {
    Seq::new(n, |c: int| true)
}

/// Cells whose water is still held: those not yet passed on downhill.
pub open spec fn held(processed: Seq<bool>, flow: Seq<Option<(usize, usize)>>) -> Seq<bool> {
    Seq::new(flow.len(), |c: int| !(processed[c] && flow[c] is Some))
}

proof fn lemma_masked_sum_update(acc: Seq<i64>, mask: Seq<bool>, k: int, t: int, x: i64)
    requires
        0 <= t < acc.len(),
        k <= acc.len(),
        k <= mask.len(),
    ensures
        masked_sum(acc.update(t, x), mask, k) == masked_sum(acc, mask, k) + if t < k && mask[t] {
            x - acc[t]
        } else {
            0
        },
    decreases k,
{
    if k > 0 {
        lemma_masked_sum_update(acc, mask, k - 1, t, x);
    }
}

proof fn lemma_masked_sum_unmask(acc: Seq<i64>, mask: Seq<bool>, k: int, c: int)
    requires
        0 <= c < mask.len(),
        k <= acc.len(),
        k <= mask.len(),
    ensures
        masked_sum(acc, mask.update(c, false), k) == masked_sum(acc, mask, k) - if c < k
            && mask[c] {
            acc[c] as int
        } else {
            0
        },
    decreases k,
{
    if k > 0 {
        lemma_masked_sum_unmask(acc, mask, k - 1, c);
    }
}

proof fn lemma_masked_sum_two(acc: Seq<i64>, mask: Seq<bool>, k: int, a: int, b: int)
    requires
        k <= acc.len(),
        k <= mask.len(),
        forall|c: int| 0 <= c < acc.len() ==> #[trigger] acc[c] >= 0,
        0 <= a < k,
        0 <= b < k,
        a != b,
        mask[a],
        mask[b],
    ensures
        acc[a] + acc[b] <= masked_sum(acc, mask, k),
    decreases k,
{
    lemma_masked_sum_nonneg(acc, mask, k - 1);
    if a < k - 1 && b < k - 1 {
        lemma_masked_sum_two(acc, mask, k - 1, a, b);
    } else if a < k - 1 {
        lemma_masked_sum_one(acc, mask, k - 1, a);
    } else {
        lemma_masked_sum_one(acc, mask, k - 1, b);
    }
}

proof fn lemma_masked_sum_one(acc: Seq<i64>, mask: Seq<bool>, k: int, a: int)
    requires
        k <= acc.len(),
        k <= mask.len(),
        forall|c: int| 0 <= c < acc.len() ==> #[trigger] acc[c] >= 0,
        0 <= a < k,
        mask[a],
    ensures
        acc[a] <= masked_sum(acc, mask, k),
    decreases k,
{
    lemma_masked_sum_nonneg(acc, mask, k - 1);
    if a < k - 1 {
        lemma_masked_sum_one(acc, mask, k - 1, a);
    }
}

proof fn lemma_masked_sum_nonneg(acc: Seq<i64>, mask: Seq<bool>, k: int)
    requires
        k <= acc.len(),
        k <= mask.len(),
        forall|c: int| 0 <= c < acc.len() ==> #[trigger] acc[c] >= 0,
    ensures
        masked_sum(acc, mask, k) >= 0,
    decreases k,
{
    if k > 0 {
        lemma_masked_sum_nonneg(acc, mask, k - 1);
    }
}

proof fn lemma_bonus_sum_mark(
    precip: Seq<i64>,
    flow: Seq<Option<(usize, usize)>>,
    mask: Seq<bool>,
    k: int,
    c: int,
)
    requires
        0 <= c < mask.len(),
        k <= mask.len(),
        k <= flow.len(),
    ensures
        bonus_sum(precip, flow, mask.update(c, true), k) == bonus_sum(precip, flow, mask, k) + if c
            < k && !mask[c] && flow[c] is Some {
            bonus(precip, c)
        } else {
            0
        },
    decreases k,
{
    if k > 0 {
        lemma_bonus_sum_mark(precip, flow, mask, k - 1, c);
    }
}

proof fn lemma_initial_sum(acc: Seq<i64>, e: Seq<i64>, sea: int, k: int)
    requires
        0 <= k <= acc.len(),
        acc.len() == e.len(),
        forall|c: int| 0 <= c < acc.len() ==> #[trigger] acc[c] == if e[c] > sea {
            1000i64
        } else {
            0
        },
    ensures
        masked_sum(acc, all_true(acc.len()), k) == 1000 * land_total(e, sea, k),
    decreases k,
{
    if k > 0 {
        lemma_initial_sum(acc, e, sea, k - 1);
    }
}

proof fn lemma_bonus_sum_empty(
    precip: Seq<i64>,
    flow: Seq<Option<(usize, usize)>>,
    mask: Seq<bool>,
    k: int,
)
    requires
        k <= mask.len(),
        forall|c: int| 0 <= c < mask.len() ==> !#[trigger] mask[c],
    ensures
        bonus_sum(precip, flow, mask, k) == 0,
    decreases k,
{
    if k > 0 {
        lemma_bonus_sum_empty(precip, flow, mask, k - 1);
    }
}

/// Unit of water a cell starts with: one on land, none in the ocean.
pub open spec fn own_water(e: Seq<i64>, sea: int, c: int) -> int {
    if e[c] > sea {
        1000
    } else {
        0
    }
}

/// What the neighbours of cell `c` in directions `0..k` that are selected by
/// `done` and flow into `c` pass on to it: their accumulation plus their bonus.
pub open spec fn inflow(
    g: HexGrid,
    flow: Seq<Option<(usize, usize)>>,
    acc: Seq<i64>,
    precip: Seq<i64>,
    done: Seq<bool>,
    c: int,
    k: int,
) -> int
    decreases k,
{
    if k <= 0 {
        0
    } else {
        inflow(g, flow, acc, precip, done, c, k - 1) + match g.spec_neighbor(c, k - 1) {
            Some(j) => match flow[j] {
                Some((_, t)) => if done[j] && t == c {
                    acc[j] + bonus(precip, j)
                } else {
                    0
                },
                None => 0,
            },
            None => 0,
        }
    }
}

/// Every cell holds its own water plus what its upstream neighbours pass on.
pub open spec fn balanced(
    g: HexGrid,
    e: Seq<i64>,
    sea: int,
    flow: Seq<Option<(usize, usize)>>,
    precip: Seq<i64>,
    acc: Seq<i64>,
) -> bool {
    &&& acc.len() == e.len()
    &&& forall|c: int|
        0 <= c < e.len() ==> #[trigger] acc[c] == own_water(e, sea, c) + inflow(
            g,
            flow,
            acc,
            precip,
            all_true(e.len()),
            c,
            6,
        )
}

/// The flow map agrees with the grid: each target is the neighbour in the
/// stated direction.
pub open spec fn consistent(g: HexGrid, flow: Seq<Option<(usize, usize)>>) -> bool {
    &&& flow.len() == g.cells().len()
    &&& forall|i: int|
        0 <= i < flow.len() ==> match #[trigger] flow[i] {
            Some((d, t)) => d < 6 && g.spec_neighbor(i, d as int) == Some(t as int),
            None => true,
        }
}

proof fn lemma_inflow_empty(
    g: HexGrid,
    flow: Seq<Option<(usize, usize)>>,
    acc: Seq<i64>,
    precip: Seq<i64>,
    done: Seq<bool>,
    c: int,
    k: int,
)
    requires
        g.wf(),
        0 <= c < g.cells().len(),
        0 <= k <= 6,
        flow.len() == g.cells().len(),
        done.len() == g.cells().len(),
        forall|j: int| 0 <= j < done.len() ==> !#[trigger] done[j],
    ensures
        inflow(g, flow, acc, precip, done, c, k) == 0,
    decreases k,
{
    if k > 0 {
        lemma_inflow_empty(g, flow, acc, precip, done, c, k - 1);
        g.lemma_wf();
    }
}

/// Marking `c0` done and raising the accumulation of its target `t` (not yet
/// done) adds to the inflow of `t` exactly what `c0` passes on, and changes no
/// other inflow.
proof fn lemma_inflow_step(
    g: HexGrid,
    flow: Seq<Option<(usize, usize)>>,
    acc: Seq<i64>,
    precip: Seq<i64>,
    done: Seq<bool>,
    c0: int,
    t: int,
    v: i64,
    c: int,
    k: int,
)
    requires
        g.wf(),
        consistent(g, flow),
        done.len() == g.cells().len(),
        acc.len() == g.cells().len(),
        0 <= c0 < g.cells().len(),
        0 <= c < g.cells().len(),
        0 <= k <= 6,
        flow[c0] matches Some((_, tt)) && tt == t,
        t != c0,
        !done[c0],
        !done[t],
    ensures
        inflow(g, flow, acc.update(t, v), precip, done.update(c0, true), c, k) == inflow(
            g,
            flow,
            acc,
            precip,
            done,
            c,
            k,
        ) + if c == t && ((flow[c0]->0).0 + 3) % 6 < k {
            acc[c0] + bonus(precip, c0)
        } else {
            0
        },
    decreases k,
{
    g.lemma_wf();
    let d0 = (flow[c0]->0).0 as int;
    g.lemma_neighbor_back(c0, d0, t);
    if k > 0 {
        lemma_inflow_step(g, flow, acc, precip, done, c0, t, v, c, k - 1);
        match g.spec_neighbor(c, k - 1) {
            Some(j) => {
                if j == c0 && c == t {
                    g.lemma_neighbor_unique(t, k - 1, (d0 + 3) % 6);
                }
            },
            None => {},
        }
    }
}

proof fn lemma_inflow_mark_idle(
    g: HexGrid,
    flow: Seq<Option<(usize, usize)>>,
    acc: Seq<i64>,
    precip: Seq<i64>,
    done: Seq<bool>,
    c0: int,
    c: int,
    k: int,
)
    requires
        g.wf(),
        done.len() == g.cells().len(),
        flow.len() == g.cells().len(),
        0 <= c0 < g.cells().len(),
        0 <= c < g.cells().len(),
        0 <= k <= 6,
        flow[c0] is None,
    ensures
        inflow(g, flow, acc, precip, done.update(c0, true), c, k) == inflow(
            g,
            flow,
            acc,
            precip,
            done,
            c,
            k,
        ),
    decreases k,
{
    g.lemma_wf();
    if k > 0 {
        lemma_inflow_mark_idle(g, flow, acc, precip, done, c0, c, k - 1);
    }
}

proof fn lemma_inflow_full(
    g: HexGrid,
    flow: Seq<Option<(usize, usize)>>,
    acc: Seq<i64>,
    precip: Seq<i64>,
    done: Seq<bool>,
    c: int,
    k: int,
)
    requires
        g.wf(),
        done.len() == g.cells().len(),
        flow.len() == g.cells().len(),
        0 <= c < g.cells().len(),
        0 <= k <= 6,
        forall|j: int| 0 <= j < flow.len() && #[trigger] flow[j] is Some ==> done[j],
    ensures
        inflow(g, flow, acc, precip, done, c, k) == inflow(
            g,
            flow,
            acc,
            precip,
            all_true(g.cells().len()),
            c,
            k,
        ),
    decreases k,
{
    g.lemma_wf();
    if k > 0 {
        lemma_inflow_full(g, flow, acc, precip, done, c, k - 1);
    }
}

/// The neighbour of `c` in direction `d` flows into `c`.
pub open spec fn feeds(g: HexGrid, flow: Seq<Option<(usize, usize)>>, c: int, d: int) -> bool {
    match g.spec_neighbor(c, d) {
        Some(j) => match flow[j] {
            Some((_, t)) => t == c,
            None => false,
        },
        None => false,
    }
}

proof fn lemma_inflow_agree(
    g: HexGrid,
    flow: Seq<Option<(usize, usize)>>,
    a: Seq<i64>,
    b: Seq<i64>,
    precip: Seq<i64>,
    c: int,
    k: int,
)
    requires
        g.wf(),
        flow.len() == g.cells().len(),
        0 <= c < g.cells().len(),
        0 <= k <= 6,
        forall|d: int|
            0 <= d < k && #[trigger] feeds(g, flow, c, d) ==> a[g.spec_neighbor(c, d)->0] == b[g.spec_neighbor(c, d)->0],
    ensures
        inflow(g, flow, a, precip, all_true(g.cells().len()), c, k) == inflow(
            g,
            flow,
            b,
            precip,
            all_true(g.cells().len()),
            c,
            k,
        ),
    decreases k,
{
    g.lemma_wf();
    if k > 0 {
        lemma_inflow_agree(g, flow, a, b, precip, c, k - 1);
        if feeds(g, flow, c, k - 1) {
            let j = g.spec_neighbor(c, k - 1)->0;
            assert(a[j] == b[j]);
        }
    }
}

/// The balance equations have one solution at most: on a downhill flow map,
/// two balanced accumulations are equal.
pub proof fn lemma_balanced_unique(
    g: HexGrid,
    e: Seq<i64>,
    sea: int,
    flow: Seq<Option<(usize, usize)>>,
    precip: Seq<i64>,
    a: Seq<i64>,
    b: Seq<i64>,
)
    requires
        g.wf(),
        e.len() == g.cells().len(),
        downhill(e, flow),
        consistent(g, flow),
        balanced(g, e, sea, flow, precip, a),
        balanced(g, e, sea, flow, precip, b),
    ensures
        a == b,
{
    let n = e.len() as int;
    lemma_balanced_from(g, e, sea, flow, precip, a, b, n);
    assert forall|c: int| 0 <= c < n implies a[c] == b[c] by {
        lemma_rank_step_bound(e, c);
    }
    assert(a =~= b);
}

proof fn lemma_rank_step_bound(e: Seq<i64>, c: int)
    requires
        0 <= c < e.len(),
    ensures
        0 <= rank(e, c) <= e.len() - 1,
{
    crate::hydrology::lemma_rank_range(e, c);
}

proof fn lemma_balanced_from(
    g: HexGrid,
    e: Seq<i64>,
    sea: int,
    flow: Seq<Option<(usize, usize)>>,
    precip: Seq<i64>,
    a: Seq<i64>,
    b: Seq<i64>,
    m: int,
)
    requires
        g.wf(),
        e.len() == g.cells().len(),
        downhill(e, flow),
        consistent(g, flow),
        balanced(g, e, sea, flow, precip, a),
        balanced(g, e, sea, flow, precip, b),
        0 <= m <= e.len(),
    ensures
        forall|c: int| 0 <= c < e.len() && rank(e, c) >= e.len() - m ==> #[trigger] a[c] == b[c],
    decreases m,
{
    g.lemma_wf();
    let n = e.len() as int;
    if m > 0 {
        lemma_balanced_from(g, e, sea, flow, precip, a, b, m - 1);
        assert forall|c: int| 0 <= c < n && rank(e, c) >= n - m implies #[trigger] a[c] == b[c] by {
            assert forall|d: int|
                0 <= d < 6 && #[trigger] feeds(g, flow, c, d) implies a[g.spec_neighbor(c, d)->0] == b[g.spec_neighbor(c, d)->0] by {
                let j = g.spec_neighbor(c, d)->0;
                assert(0 <= j < n);
                assert(e[c] < e[j]);
                lemma_rank_step(e, c, j);
            }
            lemma_inflow_agree(g, flow, a, b, precip, c, 6);
        }
    } else {
        assert forall|c: int| 0 <= c < n && rank(e, c) >= n - m implies #[trigger] a[c] == b[c] by {
            lemma_rank_step_bound(e, c);
        }
    }
}

/// Accumulated flow of every cell: each land cell starts with one unit; cells
/// are visited from the highest down, and each cell with a target passes its
/// accumulation plus half its precipitation on to that target.
///
/// Nothing is created or lost on the way: the accumulation held by cells with
/// no target equals one unit per land cell plus the bonuses of all cells with a
/// target.
pub fn flow_accumulation(
    g: &HexGrid,
    e: &Vec<i64>,
    sea: i64,
    flow: &Vec<Option<(usize, usize)>>,
    precip: &Vec<i64>,
) -> (acc: Vec<i64>)
    requires
        g.wf(),
        e@.len() == g.cells().len(),
        consistent(*g, flow@),
        e@.len() <= 10_000_000,
        downhill(e@, flow@),
        precip@.len() == e@.len(),
        forall|c: int| 0 <= c < e@.len() ==> 0 <= #[trigger] precip@[c] <= 1000,
        forall|c: int| 0 <= c < e@.len() && #[trigger] flow@[c] is Some ==> e@[c] > sea,
    ensures
        acc@.len() == e@.len(),
        forall|c: int| 0 <= c < e@.len() ==> 0 <= #[trigger] acc@[c] <= 1500 * e@.len(),
        forall|c: int| 0 <= c < e@.len() && e@[c] > sea ==> #[trigger] acc@[c] >= 1000,
        masked_sum(acc@, roots(flow@), e@.len() as int) == 1000 * land_total(
            e@,
            sea as int,
            e@.len() as int,
        ) + bonus_sum(precip@, flow@, all_true(e@.len()), e@.len() as int),
        balanced(*g, e@, sea as int, flow@, precip@, acc@),
{
    let n = e.len();
    let mut acc: Vec<i64> = Vec::new();
    let mut processed: Vec<bool> = Vec::new();
    let mut pairs: Vec<(i64, usize)> = Vec::new();
    let mut i: usize = 0;
    while i < n
        invariant
            n == e@.len(),
            i <= n,
            acc@.len() == i,
            processed@.len() == i,
            pairs@.len() <= i,
            forall|c: int| 0 <= c < i ==> #[trigger] acc@[c] == if e@[c] > sea {
                1000i64
            } else {
                0
            },
            forall|c: int| 0 <= c < i ==> !#[trigger] processed@[c],
            forall|q: int|
                0 <= q < pairs@.len() ==> (#[trigger] pairs@[q]).1 < n && pairs@[q].0 == e@[pairs@[q].1 as int],
            forall|c: int| 0 <= c < i && e@[c] > sea ==> #[trigger] pairs@.contains((e@[c], c as usize)),
        decreases n - i,
    {
        let ghost old_pairs = pairs@;
        if e[i] > sea {
            acc.push(1000);
            pairs.push((e[i], i));
            assert(pairs@[pairs@.len() - 1] == (e@[i as int], i));
        } else {
            acc.push(0);
        }
        processed.push(false);
        proof {
            assert forall|c: int| 0 <= c < i + 1 && e@[c] > sea implies #[trigger] pairs@.contains(
                (e@[c], c as usize),
            ) by {
                if c < i {
                    assert(old_pairs.contains((e@[c], c as usize)));
                    let q = choose|q: int| 0 <= q < old_pairs.len() && old_pairs[q] == (e@[c], c as usize);
                    assert(pairs@[q] == old_pairs[q]);
                } else {
                    assert(pairs@[pairs@.len() - 1] == (e@[c], c as usize));
                }
            }
        }
        i = i + 1;
    }
    let ghost unsorted = pairs@;
    sort_pairs(&mut pairs);
    proof {
        vstd::seq_lib::to_multiset_len(pairs@);
        vstd::seq_lib::to_multiset_len(unsorted);
        assert forall|q: int| 0 <= q < pairs@.len() implies (#[trigger] pairs@[q]).1 < n
            && pairs@[q].0 == e@[pairs@[q].1 as int] by {
            vstd::seq_lib::to_multiset_contains(pairs@, pairs@[q]);
            assert(pairs@.contains(pairs@[q]));
            vstd::seq_lib::to_multiset_contains(unsorted, pairs@[q]);
        }
        assert forall|c: int| 0 <= c < n && e@[c] > sea implies #[trigger] pairs@.contains(
            (e@[c], c as usize),
        ) by {
            vstd::seq_lib::to_multiset_contains(unsorted, (e@[c], c as usize));
            vstd::seq_lib::to_multiset_contains(pairs@, (e@[c], c as usize));
        }
        lemma_initial_sum(acc@, e@, sea as int, n as int);
        lemma_land_total_range(e@, sea as int, n as int);
        assert(held(processed@, flow@) =~= all_true(n as nat));
        assert forall|c: int| 0 <= c < n implies 0 <= #[trigger] acc@[c] <= 1000 * land_total(
            e@,
            sea as int,
            n as int,
        ) by {
            lemma_masked_sum_one(acc@, all_true(n as nat), n as int, c);
        }
        lemma_bonus_sum_empty(precip@, flow@, processed@, n as int);
        assert forall|c: int| 0 <= c < n implies #[trigger] acc@[c] == own_water(e@, sea as int, c)
            + inflow(*g, flow@, acc@, precip@, processed@, c, 6) by {
            lemma_inflow_empty(*g, flow@, acc@, precip@, processed@, c, 6);
        }
    }
    let ghost land = land_total(e@, sea as int, n as int);
    let ghost mut total: int = 1000 * land;
    let mut added: usize = 0;
    let mut p: usize = pairs.len();
    while p > 0
        invariant
            n == e@.len(),
            n <= 10_000_000,
            downhill(e@, flow@),
            precip@.len() == n,
            forall|c: int| 0 <= c < n ==> 0 <= #[trigger] precip@[c] <= 1000,
            forall|c: int| 0 <= c < n && #[trigger] flow@[c] is Some ==> e@[c] > sea,
            sorted_pairs(pairs@),
            pairs@.len() <= n,
            forall|q: int|
                0 <= q < pairs@.len() ==> (#[trigger] pairs@[q]).1 < n && pairs@[q].0 == e@[pairs@[q].1 as int],
            forall|c: int| 0 <= c < n && e@[c] > sea ==> #[trigger] pairs@.contains((e@[c], c as usize)),
            p <= pairs@.len(),
            acc@.len() == n,
            processed@.len() == n,
            forall|q: int| p <= q < pairs@.len() ==> processed@[(#[trigger] pairs@[q]).1 as int],
            forall|c: int, q: int|
                0 <= c < n && 0 <= q < p && #[trigger] processed@[c] ==> pair_le(
                    #[trigger] pairs@[q],
                    (e@[c], c as usize),
                ),
            land == land_total(e@, sea as int, n as int),
            total == masked_sum(acc@, held(processed@, flow@), n as int),
            total == 1000 * land + bonus_sum(precip@, flow@, processed@, n as int),
            forall|c: int| 0 <= c < n ==> 0 <= #[trigger] acc@[c] <= total,
            forall|c: int| 0 <= c < n && e@[c] > sea ==> #[trigger] acc@[c] >= 1000,
            0 <= land <= n,
            total <= 1000 * n + 500 * added,
            added <= pairs@.len() - p,
            g.wf(),
            n == g.cells().len(),
            consistent(*g, flow@),
            forall|c: int|
                0 <= c < n ==> #[trigger] acc@[c] == own_water(e@, sea as int, c) + inflow(
                    *g,
                    flow@,
                    acc@,
                    precip@,
                    processed@,
                    c,
                    6,
                ),
        decreases p,
    {
        p = p - 1;
        let c0 = pairs[p].1;
        if !processed[c0] {
            proof {
                assert(pairs@[p as int].0 == e@[c0 as int]);
            }
            let ghost old_held = held(processed@, flow@);
            let ghost old_processed = processed@;
            processed.set(c0, true);
            match flow[c0] {
                Some((_, t)) => {
                    proof {
                        assert(e@[t as int] < e@[c0 as int]);
                        if processed@[t as int] && t != c0 {
                            assert(old_processed[t as int]);
                            assert(pair_le(pairs@[p as int], (e@[t as int], t)));
                        }
                        assert(old_held[t as int]);
                        assert(old_held[c0 as int]);
                        lemma_masked_sum_two(acc@, old_held, n as int, t as int, c0 as int);
                        assert(held(processed@, flow@) =~= old_held.update(c0 as int, false));
                        lemma_masked_sum_unmask(acc@, old_held, n as int, c0 as int);
                        lemma_bonus_sum_mark(precip@, flow@, old_processed, n as int, c0 as int);
                        assert(processed@ =~= old_processed.update(c0 as int, true));
                    }
                    let b = precip[c0] / 2;
                    let v = acc[t] + acc[c0] + b;
                    let ghost acc_before = acc@;
                    acc.set(t, v);
                    proof {
                        assert(!old_processed[t as int]);
                        assert forall|c: int| 0 <= c < n implies #[trigger] acc@[c] == own_water(
                            e@,
                            sea as int,
                            c,
                        ) + inflow(*g, flow@, acc@, precip@, processed@, c, 6) by {
                            lemma_inflow_step(
                                *g,
                                flow@,
                                acc_before,
                                precip@,
                                old_processed,
                                c0 as int,
                                t as int,
                                v,
                                c,
                                6,
                            );
                            assert(acc@ =~= acc_before.update(t as int, v));
                        }
                        lemma_masked_sum_update(
                            acc_before,
                            held(processed@, flow@),
                            n as int,
                            t as int,
                            v,
                        );
                        total = total + b;
                        assert(acc@ =~= acc_before.update(t as int, v));
                    }
                    added = added + 1;
                },
                None => {
                    proof {
                        assert forall|c: int| 0 <= c < n implies #[trigger] acc@[c] == own_water(
                            e@,
                            sea as int,
                            c,
                        ) + inflow(*g, flow@, acc@, precip@, processed@, c, 6) by {
                            lemma_inflow_mark_idle(
                                *g,
                                flow@,
                                acc@,
                                precip@,
                                old_processed,
                                c0 as int,
                                c,
                                6,
                            );
                            assert(processed@ =~= old_processed.update(c0 as int, true));
                        }
                        assert(held(processed@, flow@) =~= old_held);
                        lemma_bonus_sum_mark(precip@, flow@, old_processed, n as int, c0 as int);
                        assert(processed@ =~= old_processed.update(c0 as int, true));
                    }
                },
            }
            proof {
                assert forall|c: int, q: int|
                    0 <= c < n && 0 <= q < p && #[trigger] processed@[c] implies pair_le(
                    #[trigger] pairs@[q],
                    (e@[c], c as usize),
                ) by {
                    if c == c0 {
                        assert(pair_le(pairs@[q], pairs@[p as int]));
                    } else {
                        assert(old_processed[c]);
                    }
                }
            }
        }
    }
    proof {
        assert forall|c: int| 0 <= c < n && #[trigger] flow@[c] is Some implies processed@[c] by {
            assert(pairs@.contains((e@[c], c as usize)));
            let q = choose|q: int| 0 <= q < pairs@.len() && pairs@[q] == (e@[c], c as usize);
            assert(processed@[pairs@[q].1 as int]);
        }
        assert(held(processed@, flow@) =~= roots(flow@));
        lemma_bonus_sum_full(precip@, flow@, processed@, n as int);
        assert forall|c: int| 0 <= c < n implies #[trigger] acc@[c] == own_water(e@, sea as int, c)
            + inflow(*g, flow@, acc@, precip@, all_true(e@.len()), c, 6) by {
            lemma_inflow_full(*g, flow@, acc@, precip@, processed@, c, 6);
        }
    }
    acc
}

proof fn lemma_land_total_range(e: Seq<i64>, sea: int, k: int)
    requires
        0 <= k,
    ensures
        0 <= land_total(e, sea, k) <= k,
    decreases k,
{
    if k > 0 {
        lemma_land_total_range(e, sea, k - 1);
    }
}

proof fn lemma_bonus_sum_full(
    precip: Seq<i64>,
    flow: Seq<Option<(usize, usize)>>,
    mask: Seq<bool>,
    k: int,
)
    requires
        k <= mask.len(),
        k <= flow.len(),
        forall|c: int| 0 <= c < k && #[trigger] flow[c] is Some ==> mask[c],
    ensures
        bonus_sum(precip, flow, mask, k) == bonus_sum(precip, flow, all_true(mask.len()), k),
    decreases k,
{
    if k > 0 {
        lemma_bonus_sum_full(precip, flow, mask, k - 1);
    }
}

} // verus!

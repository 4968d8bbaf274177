//! Lake placement at convergent depressions.
use vstd::prelude::*;
use crate::field::{nb_count, nb_higher, nb_sum, neighbor_stats, unit_field};
use crate::grid::HexGrid;
use crate::hex::{hex_distance, spec_hex_distance};
use crate::sorting::{pair_le, sort_pairs};

verus! {

broadcast use vstd::seq_lib::group_to_multiset_ensures;

/// Most lakes considered in one run.
pub const MAX_LAKES: usize = 25;

/// Lakes are kept at least this many cells apart.
pub const LAKE_SPACING: i64 = 6;

/// Number of neighbours of cell `i` in directions `0..d` whose flow enters `i`.
pub open spec fn nb_inflow(g: HexGrid, flow: Seq<Option<(usize, usize)>>, i: int, d: int) -> int
    decreases d,
{
    if d <= 0 {
        0
    } else {
        nb_inflow(g, flow, i, d - 1) + match g.spec_neighbor(i, d - 1) {
            Some(j) => match flow[j] {
                Some((_, t)) => if t == i {
                    1int
                } else {
                    0
                },
                None => 0,
            },
            None => 0,
        }
    }
}

/// Depth of cell `i` below the mean of its neighbours, times their number.
pub open spec fn scaled_depth(g: HexGrid, e: Seq<i64>, i: int) -> int {
    nb_sum(g, e, i, 6) - e[i] * nb_count(g, i, 6)
}

/// A lake candidate: land just above the sea (less than 0.3 above), at least
/// four of six neighbours higher, a depression deeper than 0.05, and at least
/// two neighbours flowing in.
pub open spec fn lake_candidate(
    g: HexGrid,
    e: Seq<i64>,
    sea: int,
    flow: Seq<Option<(usize, usize)>>,
    i: int,
) -> bool {
    let n = nb_count(g, i, 6);
    &&& sea < e[i] < sea + 300
    &&& nb_higher(g, e, i, e[i] as int, 6) >= 4
    &&& n > 0
    &&& scaled_depth(g, e, i) > 50 * n
    &&& nb_inflow(g, flow, i, 6) >= 2
}

/// Ranking score of a candidate: its depth plus 0.1 per inflowing neighbour.
pub open spec fn lake_score(g: HexGrid, e: Seq<i64>, flow: Seq<Option<(usize, usize)>>, i: int) -> int {
    scaled_depth(g, e, i) / nb_count(g, i, 6) + 100 * nb_inflow(g, flow, i, 6)
}

fn inflow_count(g: &HexGrid, flow: &Vec<Option<(usize, usize)>>, i: usize) -> (n: i64)
    requires
        g.wf(),
        flow@.len() == g.cells().len(),
        i < flow@.len(),
    ensures
        n == nb_inflow(*g, flow@, i as int, 6),
        0 <= n <= 6,
{
    let mut n: i64 = 0;
    let mut d: usize = 0;
    while d < 6
        invariant
            g.wf(),
            flow@.len() == g.cells().len(),
            i < flow@.len(),
            d <= 6,
            n == nb_inflow(*g, flow@, i as int, d as int),
            0 <= n <= d,
        decreases 6 - d,
    {
        match g.neighbor(i, d) {
            Some(j) => match flow[j] {
                Some((_, t)) => {
                    if t == i {
                        n = n + 1;
                    }
                },
                None => {},
            },
            None => {},
        }
        d = d + 1;
    }
    n
}

/// Whether cell `i` is a lake candidate, and its score if so.
pub fn lake_candidate_score(
    g: &HexGrid,
    e: &Vec<i64>,
    sea: i64,
    flow: &Vec<Option<(usize, usize)>>,
    i: usize,
) -> (r: Option<i64>)
    requires
        g.wf(),
        e@.len() == g.cells().len(),
        flow@.len() == g.cells().len(),
        unit_field(e@),
        -2000 <= sea <= 2000,
        i < e@.len(),
    ensures
        r is Some <==> lake_candidate(*g, e@, sea as int, flow@, i as int),
        r matches Some(s) ==> s == lake_score(*g, e@, flow@, i as int),
{
    let h = e[i];
    if !(sea < h && h < sea + 300) {
        return None;
    }
    let (sum, n, higher) = neighbor_stats(g, e, i, h);
    if n == 0 {
        return None;
    }
    proof {
        assert(-6000 <= h * n <= 6000) by (nonlinear_arith)
            requires
                -1000 <= h <= 1000,
                0 <= n <= 6,
        ;
    }
    let depth = sum - h * n;
    let incoming = inflow_count(g, flow, i);
    if higher >= 4 && depth > 50 * n && incoming >= 2 {
        Some(depth / n + 100 * incoming)
    } else {
        None
    }
}

/// Candidates with their scores, best first (ties: higher index first).
pub fn rank_lake_candidates(
    g: &HexGrid,
    e: &Vec<i64>,
    sea: i64,
    flow: &Vec<Option<(usize, usize)>>,
) -> (ranked: Vec<(i64, usize)>)
    requires
        g.wf(),
        e@.len() == g.cells().len(),
        flow@.len() == g.cells().len(),
        unit_field(e@),
        -2000 <= sea <= 2000,
    ensures
        forall|a: int, b: int|
            0 <= a < b < ranked@.len() ==> pair_le(#[trigger] ranked@[b], #[trigger] ranked@[a]),
        forall|k: int|
            0 <= k < ranked@.len() ==> (#[trigger] ranked@[k]).1 < e@.len() && lake_candidate(
                *g,
                e@,
                sea as int,
                flow@,
                ranked@[k].1 as int,
            ) && ranked@[k].0 == lake_score(*g, e@, flow@, ranked@[k].1 as int),
        forall|i: int|
            0 <= i < e@.len() && lake_candidate(*g, e@, sea as int, flow@, i) ==> exists|k: int|
                0 <= k < ranked@.len() && #[trigger] ranked@[k].1 == i,
        ranked@.no_duplicates(),
{
    let mut pairs: Vec<(i64, usize)> = Vec::new();
    let mut i: usize = 0;
    while i < e.len()
        invariant
            g.wf(),
            e@.len() == g.cells().len(),
            flow@.len() == g.cells().len(),
            unit_field(e@),
            -2000 <= sea <= 2000,
            i <= e@.len(),
            forall|a: int, b: int| 0 <= a < b < pairs@.len() ==> (#[trigger] pairs@[a]).1 < (#[trigger] pairs@[b]).1,
            forall|k: int|
                0 <= k < pairs@.len() ==> (#[trigger] pairs@[k]).1 < i && lake_candidate(
                    *g,
                    e@,
                    sea as int,
                    flow@,
                    pairs@[k].1 as int,
                ) && pairs@[k].0 == lake_score(*g, e@, flow@, pairs@[k].1 as int),
            forall|c: int|
                0 <= c < i && lake_candidate(*g, e@, sea as int, flow@, c) ==> #[trigger] pairs@.contains(
                    (lake_score(*g, e@, flow@, c) as i64, c as usize),
                ),
        decreases e@.len() - i,
    {
        let ghost old_pairs = pairs@;
        match lake_candidate_score(g, e, sea, flow, i) {
            Some(s) => {
                pairs.push((s, i));
                assert(pairs@[pairs@.len() - 1] == (s, i));
            },
            None => {},
        }
        proof {
            assert forall|c: int|
                0 <= c < i + 1 && lake_candidate(*g, e@, sea as int, flow@, c) implies #[trigger] pairs@.contains(
                (lake_score(*g, e@, flow@, c) as i64, c as usize),
            ) by {
                if c < i {
                    let x = (lake_score(*g, e@, flow@, c) as i64, c as usize);
                    assert(old_pairs.contains(x));
                    let q = choose|q: int| 0 <= q < old_pairs.len() && old_pairs[q] == x;
                    assert(pairs@[q] == old_pairs[q]);
                } else {
                    assert(pairs@[pairs@.len() - 1] == (lake_score(*g, e@, flow@, c) as i64, c as usize));
                }
            }
        }
        i = i + 1;
    }
    let ghost unsorted = pairs@;
    assert(unsorted.no_duplicates()) by {
        assert forall|a: int, b: int| 0 <= a < unsorted.len() && 0 <= b < unsorted.len() && a != b implies unsorted[a] != unsorted[b] by {
            if a < b {
                assert(unsorted[a].1 < unsorted[b].1);
            } else {
                assert(unsorted[b].1 < unsorted[a].1);
            }
        }
    }
    sort_pairs(&mut pairs);
    proof {
        vstd::seq_lib::to_multiset_len(pairs@);
        vstd::seq_lib::to_multiset_len(unsorted);
        unsorted.lemma_multiset_has_no_duplicates();
        pairs@.lemma_multiset_has_no_duplicates_conv();
        assert forall|k: int| 0 <= k < pairs@.len() implies (#[trigger] pairs@[k]).1 < e@.len()
            && lake_candidate(*g, e@, sea as int, flow@, pairs@[k].1 as int) && pairs@[k].0
            == lake_score(*g, e@, flow@, pairs@[k].1 as int) by {
            vstd::seq_lib::to_multiset_contains(pairs@, pairs@[k]);
            assert(pairs@.contains(pairs@[k]));
            vstd::seq_lib::to_multiset_contains(unsorted, pairs@[k]);
        }
    }
    let mut ranked: Vec<(i64, usize)> = Vec::new();
    let n = pairs.len();
    let mut k: usize = 0;
    while k < n
        invariant
            n == pairs@.len(),
            k <= n,
            ranked@.len() == k,
            forall|m: int| 0 <= m < k ==> #[trigger] ranked@[m] == pairs@[n - 1 - m],
        decreases n - k,
    {
        ranked.push(pairs[n - 1 - k]);
        k = k + 1;
    }
    proof {
        assert forall|a: int, b: int| 0 <= a < ranked@.len() && 0 <= b < ranked@.len() && a != b implies ranked@[a] != ranked@[b] by {
            assert(pairs@[n - 1 - a] != pairs@[n - 1 - b]);
        }
        assert forall|i: int|
            0 <= i < e@.len() && lake_candidate(*g, e@, sea as int, flow@, i) implies exists|k: int|
            0 <= k < ranked@.len() && #[trigger] ranked@[k].1 == i by {
            let x = (lake_score(*g, e@, flow@, i) as i64, i as usize);
            vstd::seq_lib::to_multiset_contains(unsorted, x);
            vstd::seq_lib::to_multiset_contains(pairs@, x);
            let q = choose|q: int| 0 <= q < pairs@.len() && pairs@[q] == x;
            assert(ranked@[n - 1 - q].1 == i);
        }
    }
    ranked
}

/// `r` lists every lake candidate once with its score, best first.
pub open spec fn ranking(
    g: HexGrid,
    e: Seq<i64>,
    sea: int,
    flow: Seq<Option<(usize, usize)>>,
    r: Seq<(i64, usize)>,
) -> bool {
    &&& forall|a: int, b: int| 0 <= a < b < r.len() ==> pair_le(#[trigger] r[b], #[trigger] r[a])
    &&& forall|k: int|
        0 <= k < r.len() ==> (#[trigger] r[k]).1 < e.len() && lake_candidate(g, e, sea, flow, r[k].1 as int)
            && r[k].0 == lake_score(g, e, flow, r[k].1 as int)
    &&& forall|i: int|
        0 <= i < e.len() && lake_candidate(g, e, sea, flow, i) ==> exists|k: int|
            0 <= k < r.len() && #[trigger] r[k].1 == i
    &&& r.no_duplicates()
}

proof fn lemma_descending_unique(r1: Seq<(i64, usize)>, r2: Seq<(i64, usize)>)
    requires
        forall|a: int, b: int| 0 <= a < b < r1.len() ==> pair_le(#[trigger] r1[b], #[trigger] r1[a]),
        forall|a: int, b: int| 0 <= a < b < r2.len() ==> pair_le(#[trigger] r2[b], #[trigger] r2[a]),
        r1.no_duplicates(),
        r2.no_duplicates(),
        forall|x: (i64, usize)| r1.contains(x) <==> r2.contains(x),
    ensures
        r1 == r2,
    decreases r1.len(),
{
    if r1.len() == 0 {
        if r2.len() > 0 {
            assert(r2.contains(r2[0]));
        }
        assert(r1 =~= r2);
    } else {
        assert(r1.contains(r1[0]));
        let k2 = choose|k: int| 0 <= k < r2.len() && r2[k] == r1[0];
        if k2 > 0 {
            assert(pair_le(r2[k2], r2[0]));
        }
        assert(r2.contains(r2[0]));
        let k1 = choose|k: int| 0 <= k < r1.len() && r1[k] == r2[0];
        if k1 > 0 {
            assert(pair_le(r1[k1], r1[0]));
        }
        assert(r1[0] == r2[0]);
        let t1 = r1.drop_first();
        let t2 = r2.drop_first();
        assert forall|x: (i64, usize)| t1.contains(x) <==> t2.contains(x) by {
            if t1.contains(x) {
                let i = choose|i: int| 0 <= i < t1.len() && t1[i] == x;
                assert(r1[i + 1] == x);
                assert(x != r1[0]);
                assert(r1.contains(x));
                let j = choose|j: int| 0 <= j < r2.len() && r2[j] == x;
                assert(j != 0);
                assert(t2[j - 1] == x);
            }
            if t2.contains(x) {
                let i = choose|i: int| 0 <= i < t2.len() && t2[i] == x;
                assert(r2[i + 1] == x);
                assert(x != r2[0]);
                assert(r2.contains(x));
                let j = choose|j: int| 0 <= j < r1.len() && r1[j] == x;
                assert(j != 0);
                assert(t1[j - 1] == x);
            }
        }
        assert forall|a: int, b: int| 0 <= a < b < t1.len() implies pair_le(#[trigger] t1[b], #[trigger] t1[a]) by {
            assert(pair_le(r1[b + 1], r1[a + 1]));
        }
        assert forall|a: int, b: int| 0 <= a < b < t2.len() implies pair_le(#[trigger] t2[b], #[trigger] t2[a]) by {
            assert(pair_le(r2[b + 1], r2[a + 1]));
        }
        lemma_descending_unique(t1, t2);
        assert(r1 =~= r2) by {
            assert forall|i: int| 0 <= i < r1.len() implies r1[i] == r2[i] by {
                if i > 0 {
                    assert(r1[i] == t1[i - 1]);
                    assert(r2[i] == t2[i - 1]);
                }
            }
        }
    }
}

/// Only one sequence is the ranking of the lake candidates.
pub proof fn lemma_ranking_unique(
    g: HexGrid,
    e: Seq<i64>,
    sea: int,
    flow: Seq<Option<(usize, usize)>>,
    r1: Seq<(i64, usize)>,
    r2: Seq<(i64, usize)>,
)
    requires
        ranking(g, e, sea, flow, r1),
        ranking(g, e, sea, flow, r2),
    ensures
        r1 == r2,
{
    assert forall|x: (i64, usize)| r1.contains(x) <==> r2.contains(x) by {
        if r1.contains(x) {
            let k = choose|k: int| 0 <= k < r1.len() && r1[k] == x;
            let i = x.1 as int;
            assert(lake_candidate(g, e, sea, flow, i));
            let k2 = choose|k2: int| 0 <= k2 < r2.len() && r2[k2].1 == i;
            assert(r2[k2] == x);
        }
        if r2.contains(x) {
            let k = choose|k: int| 0 <= k < r2.len() && r2[k] == x;
            let i = x.1 as int;
            assert(lake_candidate(g, e, sea, flow, i));
            let k1 = choose|k1: int| 0 <= k1 < r1.len() && r1[k1].1 == i;
            assert(r1[k1] == x);
        }
    }
    lemma_descending_unique(r1, r2);
}

/// Cell `c` lies at least `LAKE_SPACING` from every cell of `placed`.
pub open spec fn spaced_from(g: HexGrid, placed: Seq<usize>, c: int) -> bool {
    forall|l: int|
        0 <= l < placed.len() ==> spec_hex_distance(g.cells()[c], g.cells()[#[trigger] placed[l] as int])
            >= LAKE_SPACING
}

/// Lakes placed from the first `k` ranked candidates: each is placed unless it
/// lies too close to a lake placed before it.
pub open spec fn greedy_lakes(g: HexGrid, ranked: Seq<(i64, usize)>, k: int) -> Seq<usize>
    decreases k,
{
    if k <= 0 {
        Seq::empty()
    } else {
        let prev = greedy_lakes(g, ranked, k - 1);
        let c = ranked[k - 1].1;
        if spaced_from(g, prev, c as int) {
            prev.push(c)
        } else {
            prev
        }
    }
}

pub open spec fn lake_window(n: int) -> int {
    if n < MAX_LAKES {
        n
    } else {
        MAX_LAKES as int
    }
}

/// Commits lakes in ranked order, up to `MAX_LAKES` candidates, skipping any
/// within `LAKE_SPACING` of a lake already placed.
pub fn place_lakes(g: &HexGrid, ranked: &Vec<(i64, usize)>) -> (lakes: Vec<usize>)
    requires
        g.wf(),
        forall|k: int| 0 <= k < ranked@.len() ==> (#[trigger] ranked@[k]).1 < g.cells().len(),
    ensures
        lakes@ == greedy_lakes(*g, ranked@, lake_window(ranked@.len() as int)),
        lakes@.len() <= MAX_LAKES,
{
    let mut lakes: Vec<usize> = Vec::new();
    let limit: usize = if ranked.len() < MAX_LAKES {
        ranked.len()
    } else {
        MAX_LAKES
    };
    let mut k: usize = 0;
    while k < limit
        invariant
            g.wf(),
            forall|m: int| 0 <= m < ranked@.len() ==> (#[trigger] ranked@[m]).1 < g.cells().len(),
            limit == lake_window(ranked@.len() as int),
            limit <= ranked@.len(),
            k <= limit,
            lakes@ == greedy_lakes(*g, ranked@, k as int),
            lakes@.len() <= k,
            forall|m: int| 0 <= m < lakes@.len() ==> (#[trigger] lakes@[m]) < g.cells().len(),
        decreases limit - k,
    {
        let c = ranked[k].1;
        let cc = g.coord(c);
        let mut far = true;
        let mut m: usize = 0;
        while m < lakes.len()
            invariant
                g.wf(),
                c < g.cells().len(),
                cc == g.cells()[c as int],
                m <= lakes@.len(),
                forall|x: int| 0 <= x < lakes@.len() ==> (#[trigger] lakes@[x]) < g.cells().len(),
                far == forall|l: int|
                    0 <= l < m ==> spec_hex_distance(cc, g.cells()[#[trigger] lakes@[l] as int])
                        >= LAKE_SPACING,
            decreases lakes@.len() - m,
        {
            if hex_distance(cc, g.coord(lakes[m])) < LAKE_SPACING {
                far = false;
            }
            m = m + 1;
        }
        if far {
            lakes.push(c);
        }
        k = k + 1;
    }
    lakes
}

} // verus!

//! Drainage, downhill flow directions, and the shape of the drainage graph.
use vstd::prelude::*;
use crate::field::{nb_absdiff, nb_count, neighbor_relief, neighbor_stats, unit_field};
use crate::grid::HexGrid;
use crate::sea_level::indexed;
use crate::sorting::{count_key_at_most, count_key_below};
use crate::terrain::GeologyType;

verus! {

/// Permeability of each rock type.
pub open spec fn geology_drainage(g: GeologyType) -> int {
    match g {
        GeologyType::Limestone => 900,
        GeologyType::Sandstone => 700,
        GeologyType::Sedimentary => 500,
        GeologyType::Igneous | GeologyType::Granite => 300,
        GeologyType::Metamorphic => 400,
        GeologyType::Volcanic => 800,
        GeologyType::Basalt => 600,
        _ => 500,
    }
}

/// Drainage of cell `i`: its rock's permeability plus twice the mean slope to
/// its neighbours (at most 0.3), capped at 1.
pub open spec fn cell_drainage(g: HexGrid, e: Seq<i64>, geo: GeologyType, i: int) -> int {
    let n = nb_count(g, i, 6);
    let slope_bonus = if n > 0 {
        let b = 2 * nb_absdiff(g, e, i, 6) / n;
        if b < 300 {
            b
        } else {
            300
        }
    } else {
        0
    };
    let v = geology_drainage(geo) + slope_bonus;
    if v < 1000 {
        v
    } else {
        1000
    }
}

fn drainage_of(g: GeologyType) -> (v: i64)
    ensures
        v == geology_drainage(g),
{
    match g {
        GeologyType::Limestone => 900,
        GeologyType::Sandstone => 700,
        GeologyType::Sedimentary => 500,
        GeologyType::Igneous | GeologyType::Granite => 300,
        GeologyType::Metamorphic => 400,
        GeologyType::Volcanic => 800,
        GeologyType::Basalt => 600,
        _ => 500,
    }
}

/// The drainage stage.
pub fn drainage(g: &HexGrid, e: &Vec<i64>, geology: &Vec<GeologyType>) -> (r: Vec<i64>)
    requires
        g.wf(),
        e@.len() == g.cells().len(),
        geology@.len() == g.cells().len(),
        unit_field(e@),
    ensures
        r@.len() == e@.len(),
        forall|i: int| 0 <= i < e@.len() ==> #[trigger] r@[i] == cell_drainage(*g, e@, geology@[i], i),
        forall|i: int| 0 <= i < e@.len() ==> 0 <= #[trigger] r@[i] <= 1000,
{
    let mut r: Vec<i64> = Vec::new();
    let mut i: usize = 0;
    while i < e.len()
        invariant
            g.wf(),
            e@.len() == g.cells().len(),
            geology@.len() == g.cells().len(),
            unit_field(e@),
            i <= e@.len(),
            r@.len() == i,
            forall|k: int| 0 <= k < i ==> #[trigger] r@[k] == cell_drainage(*g, e@, geology@[k], k),
            forall|k: int| 0 <= k < i ==> 0 <= #[trigger] r@[k] <= 1000,
        decreases e@.len() - i,
    {
        let (total, _) = neighbor_relief(g, e, i, 0);
        let (_, n, _) = neighbor_stats(g, e, i, 0);
        let bonus: i64 = if n > 0 {
            let b = 2 * total / n;
            if b < 300 {
                b
            } else {
                300
            }
        } else {
            0
        };
        let v0 = drainage_of(geology[i]) + bonus;
        let v = if v0 < 1000 {
            v0
        } else {
            1000
        };
        let ghost old_r = r@;
        r.push(v);
        assert(forall|k: int| 0 <= k < i ==> r@[k] == old_r[k]);
        i = i + 1;
    }
    r
}

/// Scan of the neighbours of cell `i` in directions `0..d` for the lowest one
/// strictly below the cell: the direction found, if any, and the lowest value
/// so far (the cell's own elevation when none is lower).
pub open spec fn lowest_scan(g: HexGrid, e: Seq<i64>, i: int, d: int) -> (Option<int>, int)
    decreases d,
{
    if d <= 0 {
        (None, e[i] as int)
    } else {
        let prev = lowest_scan(g, e, i, d - 1);
        match g.spec_neighbor(i, d - 1) {
            Some(j) => if (e[j] as int) < prev.1 {
                (Some(d - 1), e[j] as int)
            } else {
                prev
            },
            None => prev,
        }
    }
}

/// Flow direction of cell `i`: for a land cell, the direction of its lowest
/// neighbour if that is strictly lower (the first such in direction order);
/// none for a basin or an ocean cell.
pub open spec fn flow_direction(g: HexGrid, e: Seq<i64>, sea: int, i: int) -> Option<int> {
    if e[i] <= sea {
        None
    } else {
        lowest_scan(g, e, i, 6).0
    }
}

/// The flow map that goes with the flow directions: direction and target cell.
pub open spec fn flow_entry(g: HexGrid, e: Seq<i64>, sea: int, i: int) -> Option<(usize, usize)> {
    match flow_direction(g, e, sea, i) {
        Some(d) => match g.spec_neighbor(i, d) {
            Some(j) => Some((d as usize, j as usize)),
            None => None,
        },
        None => None,
    }
}

/// Every entry of `flow` points to an in-range cell strictly below its source.
pub open spec fn downhill(e: Seq<i64>, flow: Seq<Option<(usize, usize)>>) -> bool {
    &&& flow.len() == e.len()
    &&& forall|i: int|
        0 <= i < flow.len() ==> match #[trigger] flow[i] {
            Some((d, t)) => d < 6 && t < e.len() && e[t as int] < e[i],
            None => true,
        }
}

proof fn lemma_lowest_scan(g: HexGrid, e: Seq<i64>, i: int, d: int)
    requires
        g.wf(),
        e.len() == g.cells().len(),
        0 <= i < e.len(),
        0 <= d <= 6,
    ensures
        lowest_scan(g, e, i, d).1 <= e[i],
        match lowest_scan(g, e, i, d).0 {
            Some(k) => 0 <= k < d && g.spec_neighbor(i, k) is Some && e[g.spec_neighbor(i, k)->0]
                == lowest_scan(g, e, i, d).1 && lowest_scan(g, e, i, d).1 < e[i],
            None => lowest_scan(g, e, i, d).1 == e[i],
        },
    decreases d,
{
    if d > 0 {
        lemma_lowest_scan(g, e, i, d - 1);
    }
}

/// Computes the flow map of every cell.
pub fn flow_directions(g: &HexGrid, e: &Vec<i64>, sea: i64) -> (r: Vec<Option<(usize, usize)>>)
    requires
        g.wf(),
        e@.len() == g.cells().len(),
        unit_field(e@),
    ensures
        r@.len() == e@.len(),
        forall|i: int| 0 <= i < e@.len() ==> #[trigger] r@[i] == flow_entry(*g, e@, sea as int, i),
        downhill(e@, r@),
        forall|i: int| 0 <= i < e@.len() && #[trigger] r@[i] is Some ==> e@[i] > sea,
        forall|i: int|
            0 <= i < e@.len() ==> match #[trigger] r@[i] {
                Some((d, t)) => g.spec_neighbor(i, d as int) == Some(t as int),
                None => true,
            },
{
    let mut r: Vec<Option<(usize, usize)>> = Vec::new();
    let mut i: usize = 0;
    while i < e.len()
        invariant
            g.wf(),
            e@.len() == g.cells().len(),
            unit_field(e@),
            i <= e@.len(),
            r@.len() == i,
            forall|k: int| 0 <= k < i ==> #[trigger] r@[k] == flow_entry(*g, e@, sea as int, k),
            forall|k: int|
                0 <= k < i ==> match #[trigger] r@[k] {
                    Some((d, t)) => d < 6 && t < e@.len() && e@[t as int] < e@[k]
                        && g.spec_neighbor(k, d as int) == Some(t as int),
                    None => true,
                },
        decreases e@.len() - i,
    {
        let entry: Option<(usize, usize)> = if e[i] <= sea {
            None
        } else {
            let mut best: Option<(usize, usize)> = None;
            let mut lowest: i64 = e[i];
            let mut d: usize = 0;
            while d < 6
                invariant
                    g.wf(),
                    e@.len() == g.cells().len(),
                    unit_field(e@),
                    i < e@.len(),
                    d <= 6,
                    lowest == lowest_scan(*g, e@, i as int, d as int).1,
                    match lowest_scan(*g, e@, i as int, d as int).0 {
                        Some(k) => best matches Some((bd, bt)) && bd == k && g.spec_neighbor(
                            i as int,
                            k,
                        ) == Some(bt as int),
                        None => best is None,
                    },
                decreases 6 - d,
            {
                match g.neighbor(i, d) {
                    Some(j) => {
                        if e[j] < lowest {
                            lowest = e[j];
                            best = Some((d, j));
                        }
                    },
                    None => {},
                }
                d = d + 1;
            }
            proof {
                lemma_lowest_scan(*g, e@, i as int, 6);
            }
            best
        };
        proof {
            lemma_lowest_scan(*g, e@, i as int, 6);
            g.lemma_wf();
        }
        assert(entry == flow_entry(*g, e@, sea as int, i as int));
        let ghost old_r = r@;
        r.push(entry);
        assert(forall|k: int| 0 <= k < i ==> r@[k] == old_r[k]);
        i = i + 1;
    }
    r
}

/// The cell reached from `i` after `k` steps along `flow`, if the path is that long.
pub open spec fn flow_path(flow: Seq<Option<(usize, usize)>>, i: int, k: nat) -> Option<int>
    decreases k,
{
    if k == 0 {
        Some(i)
    } else {
        match flow_path(flow, i, (k - 1) as nat) {
            Some(j) => match flow[j] {
                Some((_, t)) => Some(t as int),
                None => None,
            },
            None => None,
        }
    }
}

/// Number of cells strictly lower than cell `j`.
pub open spec fn rank(e: Seq<i64>, j: int) -> int {
    count_key_below(indexed(e), e[j] as int) as int
}

proof fn lemma_key_present(s: Seq<(i64, usize)>, k: int)
    requires
        0 <= k < s.len(),
    ensures
        count_key_at_most(s, s[k].0 as int) >= count_key_below(s, s[k].0 as int) + 1,
        count_key_below(s, s[k].0 as int) <= s.len() - 1,
    decreases s.len(),
{
    let x = s[k].0 as int;
    if k < s.len() - 1 {
        lemma_key_present(s.drop_last(), k);
    } else {
        lemma_below_le_at_most(s.drop_last(), x);
        lemma_below_len(s.drop_last(), x);
    }
}

proof fn lemma_below_le_at_most(s: Seq<(i64, usize)>, x: int)
    ensures
        count_key_below(s, x) <= count_key_at_most(s, x),
    decreases s.len(),
{
    if s.len() > 0 {
        lemma_below_le_at_most(s.drop_last(), x);
    }
}

proof fn lemma_below_len(s: Seq<(i64, usize)>, x: int)
    ensures
        count_key_below(s, x) <= s.len(),
    decreases s.len(),
{
    if s.len() > 0 {
        lemma_below_len(s.drop_last(), x);
    }
}

proof fn lemma_at_most_below(s: Seq<(i64, usize)>, a: int, b: int)
    requires
        a < b,
    ensures
        count_key_at_most(s, a) <= count_key_below(s, b),
    decreases s.len(),
{
    if s.len() > 0 {
        lemma_at_most_below(s.drop_last(), a, b);
    }
}

pub(crate) proof fn lemma_rank_step(e: Seq<i64>, a: int, b: int)
    requires
        0 <= a < e.len(),
        0 <= b < e.len(),
        e[a] < e[b],
    ensures
        rank(e, a) + 1 <= rank(e, b),
        0 <= rank(e, a) <= e.len() - 1,
{
    let s = indexed(e);
    assert(s[a].0 == e[a]);
    lemma_key_present(s, a);
    lemma_at_most_below(s, e[a] as int, e[b] as int);
}

pub(crate) proof fn lemma_rank_range(e: Seq<i64>, c: int)
    requires
        0 <= c < e.len(),
    ensures
        0 <= rank(e, c) <= e.len() - 1,
{
    let s = indexed(e);
    assert(s[c].0 == e[c]);
    lemma_key_present(s, c);
}

proof fn lemma_path_rank(e: Seq<i64>, flow: Seq<Option<(usize, usize)>>, i: int, k: nat)
    requires
        downhill(e, flow),
        0 <= i < e.len(),
    ensures
        flow_path(flow, i, k) matches Some(j) ==> 0 <= j < e.len() && rank(e, j) + k <= rank(e, i)
            && 0 <= rank(e, j) <= e.len() - 1,
        0 <= rank(e, i) <= e.len() - 1,
    decreases k,
{
    let s = indexed(e);
    assert(s[i].0 == e[i]);
    lemma_key_present(s, i);
    if k > 0 {
        lemma_path_rank(e, flow, i, (k - 1) as nat);
        match flow_path(flow, i, (k - 1) as nat) {
            Some(j) => {
                match flow[j] {
                    Some((_, t)) => {
                        lemma_rank_step(e, t as int, j);
                    },
                    None => {},
                }
            },
            None => {},
        }
    }
}

/// Following a downhill flow map from any cell ends within `N - 1` steps, `N`
/// being the number of cells: the drainage graph has no cycles.
pub proof fn lemma_flow_terminates(e: Seq<i64>, flow: Seq<Option<(usize, usize)>>, i: int)
    requires
        downhill(e, flow),
        0 <= i < e.len(),
    ensures
        flow_path(flow, i, e.len()) is None,
{
    lemma_path_rank(e, flow, i, e.len());
}

} // verus!

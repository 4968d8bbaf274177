//! River promotion, river flow rates, river edges and coastal cells.
use vstd::prelude::*;
use crate::field::{nb_any_at_most, neighbor_relief, unit_field};
use crate::grid::HexGrid;
use crate::terrain::BiomeType;

verus! {

/// Accumulation a cell needs to carry a river: four units, lowered in wet
/// cells (to no less than 0.3 of it) and by a fifth in high cells.
pub open spec fn river_threshold(elev: int, sea: int, precip: int) -> int {
    let pf0 = 1000 - precip / 2;
    let pf = if pf0 >= 300 {
        pf0
    } else {
        300
    };
    let ef = if elev > sea + 300 {
        800int
    } else {
        1000
    };
    4 * pf * ef / 1000
}

/// Promotes to a river every cell whose accumulation reaches its threshold.
pub fn river_network(e: &Vec<i64>, sea: i64, precip: &Vec<i64>, acc: &Vec<i64>) -> (river: Vec<
    bool,
>)
    requires
        precip@.len() == e@.len(),
        acc@.len() == e@.len(),
        forall|c: int| 0 <= c < e@.len() ==> 0 <= #[trigger] precip@[c] <= 1000,
        -2000 <= sea <= 2000,
        unit_field(e@),
    ensures
        river@.len() == e@.len(),
        forall|c: int|
            0 <= c < e@.len() ==> #[trigger] river@[c] == (acc@[c] >= river_threshold(
                e@[c] as int,
                sea as int,
                precip@[c] as int,
            )),
        forall|c: int| 0 <= c < e@.len() && #[trigger] river@[c] ==> acc@[c] >= 960,
{
    let mut river: Vec<bool> = Vec::new();
    let mut i: usize = 0;
    while i < e.len()
        invariant
            precip@.len() == e@.len(),
            acc@.len() == e@.len(),
            forall|c: int| 0 <= c < e@.len() ==> 0 <= #[trigger] precip@[c] <= 1000,
            -2000 <= sea <= 2000,
            unit_field(e@),
            i <= e@.len(),
            river@.len() == i,
            forall|c: int|
                0 <= c < i ==> #[trigger] river@[c] == (acc@[c] >= river_threshold(
                    e@[c] as int,
                    sea as int,
                    precip@[c] as int,
                )),
            forall|c: int| 0 <= c < i && #[trigger] river@[c] ==> acc@[c] >= 960,
        decreases e@.len() - i,
    {
        let pf0 = 1000 - precip[i] / 2;
        let pf: i64 = if pf0 >= 300 {
            pf0
        } else {
            300
        };
        let ef: i64 = if e[i] > sea + 300 {
            800
        } else {
            1000
        };
        proof {
            assert(0 <= pf * ef <= 1_000_000) by (nonlinear_arith)
                requires
                    300 <= pf <= 1000,
                    800 <= ef <= 1000,
            ;
        }
        let threshold = 4 * pf * ef / 1000;
        proof {
            assert(threshold >= 960) by (nonlinear_arith)
                requires
                    threshold == 4 * pf * ef / 1000,
                    300 <= pf,
                    800 <= ef,
            ;
        }
        let ghost old_r = river@;
        river.push(acc[i] >= threshold);
        assert(forall|c: int| 0 <= c < i ==> river@[c] == old_r[c]);
        i = i + 1;
    }
    river
}

/// Largest value of `acc` among the first `k` cells (zero if none is positive).
pub open spec fn max_acc(acc: Seq<i64>, k: int) -> int
    decreases k,
{
    if k <= 0 {
        0
    } else {
        let m = max_acc(acc, k - 1);
        if acc[k - 1] > m {
            acc[k - 1] as int
        } else {
            m
        }
    }
}

/// River flow of a cell: its accumulation relative to the largest, between
/// 0.1 and 1 for a river cell, zero elsewhere.
pub open spec fn river_flow_of(acc: int, max: int, river: bool) -> int {
    if river {
        let f = acc * 1000 / max;
        if f < 100 {
            100
        } else if f > 1000 {
            1000
        } else {
            f
        }
    } else {
        0
    }
}

proof fn lemma_max_acc(acc: Seq<i64>, k: int)
    requires
        0 <= k <= acc.len(),
    ensures
        max_acc(acc, k) >= 0,
        forall|c: int| 0 <= c < k ==> acc[c] <= max_acc(acc, k),
        max_acc(acc, k) == 0 || exists|c: int| 0 <= c < k && acc[c] == max_acc(acc, k),
    decreases k,
{
    if k > 0 {
        lemma_max_acc(acc, k - 1);
    }
}

/// River flow rate of every cell.
pub fn river_flow_rates(acc: &Vec<i64>, river: &Vec<bool>) -> (flow: Vec<i64>)
    requires
        river@.len() == acc@.len(),
        forall|c: int| 0 <= c < acc@.len() ==> 0 <= #[trigger] acc@[c] <= 1_000_000_000_000,
        forall|c: int| 0 <= c < acc@.len() && #[trigger] river@[c] ==> acc@[c] > 0,
    ensures
        flow@.len() == acc@.len(),
        forall|c: int|
            0 <= c < acc@.len() ==> #[trigger] flow@[c] == river_flow_of(
                acc@[c] as int,
                max_acc(acc@, acc@.len() as int),
                river@[c],
            ),
        forall|c: int| 0 <= c < acc@.len() && #[trigger] river@[c] ==> 100 <= flow@[c] <= 1000,
        forall|c: int| 0 <= c < acc@.len() && !#[trigger] river@[c] ==> flow@[c] == 0,
{
    let mut max: i64 = 0;
    let mut i: usize = 0;
    while i < acc.len()
        invariant
            i <= acc@.len(),
            max == max_acc(acc@, i as int),
            0 <= max <= 1_000_000_000_000,
            forall|c: int| 0 <= c < acc@.len() ==> 0 <= #[trigger] acc@[c] <= 1_000_000_000_000,
        decreases acc@.len() - i,
    {
        if acc[i] > max {
            max = acc[i];
        }
        i = i + 1;
    }
    proof {
        lemma_max_acc(acc@, acc@.len() as int);
    }
    let mut flow: Vec<i64> = Vec::new();
    let mut i: usize = 0;
    while i < acc.len()
        invariant
            river@.len() == acc@.len(),
            i <= acc@.len(),
            max == max_acc(acc@, acc@.len() as int),
            forall|c: int| 0 <= c < acc@.len() ==> 0 <= #[trigger] acc@[c] <= max,
            forall|c: int| 0 <= c < acc@.len() ==> 0 <= #[trigger] acc@[c] <= 1_000_000_000_000,
            forall|c: int| 0 <= c < acc@.len() && #[trigger] river@[c] ==> acc@[c] > 0,
            flow@.len() == i,
            forall|c: int|
                0 <= c < i ==> #[trigger] flow@[c] == river_flow_of(acc@[c] as int, max as int, river@[c]),
            forall|c: int| 0 <= c < i && #[trigger] river@[c] ==> 100 <= flow@[c] <= 1000,
            forall|c: int| 0 <= c < i && !#[trigger] river@[c] ==> flow@[c] == 0,
        decreases acc@.len() - i,
    {
        let v: i64 = if river[i] {
            let f = acc[i] * 1000 / max;
            if f < 100 {
                100
            } else if f > 1000 {
                1000
            } else {
                f
            }
        } else {
            0
        };
        let ghost old_f = flow@;
        flow.push(v);
        assert(forall|c: int| 0 <= c < i ==> flow@[c] == old_f[c]);
        i = i + 1;
    }
    flow
}

/// Whether edge `k` of cell `i` carries a river: the cell is a river, and it
/// flows across the edge or the neighbour across the edge flows into it. A cell
/// without a river has no river edge.
pub open spec fn river_edge(
    g: HexGrid,
    flow: Seq<Option<(usize, usize)>>,
    river: Seq<bool>,
    i: int,
    k: int,
) -> bool {
    let outgoing = match flow[i] {
        Some((d, t)) => d == k,
        None => false,
    };
    let incoming = match g.spec_neighbor(i, k) {
        Some(j) => match flow[j] {
            Some((_, t)) => t == i,
            None => false,
        },
        None => false,
    };
    river[i] && (outgoing || incoming)
}

/// River edges of every cell.
pub fn river_edges(g: &HexGrid, flow: &Vec<Option<(usize, usize)>>, river: &Vec<bool>) -> (edges:
    Vec<[bool; 6]>)
    requires
        g.wf(),
        flow@.len() == g.cells().len(),
        river@.len() == g.cells().len(),
        forall|c: int|
            0 <= c < flow@.len() ==> match #[trigger] flow@[c] {
                Some((d, t)) => t < flow@.len(),
                None => true,
            },
    ensures
        edges@.len() == flow@.len(),
        forall|i: int, k: int|
            0 <= i < flow@.len() && 0 <= k < 6 ==> #[trigger] edges@[i]@[k] == river_edge(
                *g,
                flow@,
                river@,
                i,
                k,
            ),
{
    let mut edges: Vec<[bool; 6]> = Vec::new();
    let mut i: usize = 0;
    while i < flow.len()
        invariant
            g.wf(),
            flow@.len() == g.cells().len(),
            river@.len() == g.cells().len(),
            forall|c: int|
                0 <= c < flow@.len() ==> match #[trigger] flow@[c] {
                    Some((d, t)) => t < flow@.len(),
                    None => true,
                },
            i <= flow@.len(),
            edges@.len() == i,
            forall|c: int, k: int|
                0 <= c < i && 0 <= k < 6 ==> #[trigger] edges@[c]@[k] == river_edge(
                    *g,
                    flow@,
                    river@,
                    c,
                    k,
                ),
        decreases flow@.len() - i,
    {
        let mut row = [false, false, false, false, false, false];
        let mut k: usize = 0;
        while k < 6
            invariant
                g.wf(),
                flow@.len() == g.cells().len(),
                river@.len() == g.cells().len(),
                forall|c: int|
                    0 <= c < flow@.len() ==> match #[trigger] flow@[c] {
                        Some((d, t)) => t < flow@.len(),
                        None => true,
                    },
                i < flow@.len(),
                k <= 6,
                forall|m: int| 0 <= m < k ==> row@[m] == river_edge(*g, flow@, river@, i as int, m),
            decreases 6 - k,
        {
            let outgoing = match flow[i] {
                Some((d, _)) => d == k,
                None => false,
            };
            let incoming = match g.neighbor(i, k) {
                Some(j) => match flow[j] {
                    Some((_, t)) => t == i,
                    None => false,
                },
                None => false,
            };
            row[k] = river[i] && (outgoing || incoming);
            k = k + 1;
        }
        let ghost old_e = edges@;
        edges.push(row);
        assert(forall|c: int| 0 <= c < i ==> edges@[c] == old_e[c]);
        i = i + 1;
    }
    edges
}

/// A land cell with an ocean neighbour.
pub open spec fn coastal(g: HexGrid, e: Seq<i64>, sea: int, i: int) -> bool {
    e[i] > sea && nb_any_at_most(g, e, i, sea, 6)
}

/// Marks the coastal cells.
pub fn coastal_cells(g: &HexGrid, e: &Vec<i64>, sea: i64) -> (r: Vec<bool>)
    requires
        g.wf(),
        e@.len() == g.cells().len(),
        unit_field(e@),
    ensures
        r@.len() == e@.len(),
        forall|i: int| 0 <= i < e@.len() ==> #[trigger] r@[i] == coastal(*g, e@, sea as int, i),
{
    let mut r: Vec<bool> = Vec::new();
    let mut i: usize = 0;
    while i < e.len()
        invariant
            g.wf(),
            e@.len() == g.cells().len(),
            unit_field(e@),
            i <= e@.len(),
            r@.len() == i,
            forall|k: int| 0 <= k < i ==> #[trigger] r@[k] == coastal(*g, e@, sea as int, k),
        decreases e@.len() - i,
    {
        let v = if e[i] > sea {
            let (_, any) = neighbor_relief(g, e, i, sea);
            any
        } else {
            false
        };
        let ghost old_r = r@;
        r.push(v);
        assert(forall|k: int| 0 <= k < i ==> r@[k] == old_r[k]);
        i = i + 1;
    }
    r
}

/// Accumulation at which a cell of the given biome gains a river in the
/// refinement pass: low in rainforest, high in desert.
pub open spec fn biome_river_threshold(b: BiomeType) -> int {
    match b {
        BiomeType::TropicalRainforest => 2000,
        BiomeType::TemperateRainforest => 2500,
        BiomeType::TropicalSeasonalForest | BiomeType::TemperateDeciduousForest => 3000,
        BiomeType::TemperateGrassland | BiomeType::TaigaBorealForest => 3500,
        BiomeType::TemperateConiferForest => 4000,
        BiomeType::TundraWet | BiomeType::Wetland => 3000,
        BiomeType::Shrubland => 6000,
        BiomeType::HotDesert | BiomeType::ColdDesert => 12000,
        BiomeType::TundraBarren => 8000,
        _ => 5000,
    }
}

fn biome_threshold_of(b: BiomeType) -> (v: i64)
    ensures
        v == biome_river_threshold(b),
{
    match b {
        BiomeType::TropicalRainforest => 2000,
        BiomeType::TemperateRainforest => 2500,
        BiomeType::TropicalSeasonalForest | BiomeType::TemperateDeciduousForest => 3000,
        BiomeType::TemperateGrassland | BiomeType::TaigaBorealForest => 3500,
        BiomeType::TemperateConiferForest => 4000,
        BiomeType::TundraWet | BiomeType::Wetland => 3000,
        BiomeType::Shrubland => 6000,
        BiomeType::HotDesert | BiomeType::ColdDesert => 12000,
        BiomeType::TundraBarren => 8000,
        _ => 5000,
    }
}

/// The biome-aware refinement: a cell keeps its river, or gains one where its
/// accumulation reaches its biome's threshold.
pub fn refine_rivers(river: &Vec<bool>, acc: &Vec<i64>, biome: &Vec<BiomeType>) -> (r: Vec<bool>)
    requires
        acc@.len() == river@.len(),
        biome@.len() == river@.len(),
    ensures
        r@.len() == river@.len(),
        forall|c: int|
            0 <= c < river@.len() ==> #[trigger] r@[c] == (river@[c] || acc@[c]
                >= biome_river_threshold(biome@[c])),
        forall|c: int| 0 <= c < river@.len() && #[trigger] r@[c] ==> river@[c] || acc@[c] >= 2000,
{
    let mut r: Vec<bool> = Vec::new();
    let mut i: usize = 0;
    while i < river.len()
        invariant
            acc@.len() == river@.len(),
            biome@.len() == river@.len(),
            i <= river@.len(),
            r@.len() == i,
            forall|c: int|
                0 <= c < i ==> #[trigger] r@[c] == (river@[c] || acc@[c] >= biome_river_threshold(
                    biome@[c],
                )),
        decreases river@.len() - i,
    {
        let v = river[i] || acc[i] >= biome_threshold_of(biome[i]);
        let ghost old_r = r@;
        r.push(v);
        assert(forall|c: int| 0 <= c < i ==> r@[c] == old_r[c]);
        i = i + 1;
    }
    r
}

/// River flow is positive and at most 1 exactly on river cells, zero
/// elsewhere; and a cell without a river has no river edge.
pub proof fn lemma_river_fields(
    g: HexGrid,
    flow: Seq<Option<(usize, usize)>>,
    river: Seq<bool>,
    acc: Seq<i64>,
    rates: Seq<i64>,
    edges: Seq<[bool; 6]>,
    i: int,
    k: int,
)
    requires
        g.wf(),
        flow.len() == g.cells().len(),
        river.len() == flow.len(),
        acc.len() == flow.len(),
        rates.len() == flow.len(),
        edges.len() == flow.len(),
        forall|c: int| 0 <= c < acc.len() ==> 0 <= #[trigger] acc[c],
        forall|c: int| 0 <= c < acc.len() && #[trigger] river[c] ==> acc[c] > 0,
        forall|c: int|
            0 <= c < acc.len() ==> #[trigger] rates[c] == river_flow_of(
                acc[c] as int,
                max_acc(acc, acc.len() as int),
                river[c],
            ),
        forall|c: int, m: int|
            0 <= c < flow.len() && 0 <= m < 6 ==> #[trigger] edges[c]@[m] == river_edge(
                g,
                flow,
                river,
                c,
                m,
            ),
        forall|c: int|
            0 <= c < flow.len() ==> match #[trigger] flow[c] {
                Some((d, t)) => g.spec_neighbor(c, d as int) == Some(t as int),
                None => true,
            },
        0 <= i < flow.len(),
        0 <= k < 6,
    ensures
        river[i] ==> 0 < rates[i] <= 1000,
        !river[i] ==> rates[i] == 0,
        !river[i] ==> !edges[i]@[k],
{
    lemma_max_acc(acc, acc.len() as int);
    if river[i] {
        let m = max_acc(acc, acc.len() as int);
        assert(acc[i] <= m);
    }
}

} // verus!

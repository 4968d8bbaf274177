//! Elevation from geology and noise layers, and one pass of erosion.
use vstd::prelude::*;
use crate::field::{nb_count, nb_sum, neighbor_stats, unit_field};
use crate::fixed::{clamp, fmul, spec_clamp, spec_fmul};
use crate::grid::HexGrid;
use crate::tectonics::sample_ok;
use crate::terrain::GeologyType;

verus! {

/// Starting elevation of each rock type.
pub open spec fn geology_base_elevation(g: GeologyType) -> int {
    match g {
        GeologyType::OceanicCrust => -600,
        GeologyType::ContinentalShelf => -200,
        GeologyType::Sedimentary => 100,
        GeologyType::Limestone => 150,
        GeologyType::Sandstone => 200,
        GeologyType::Igneous | GeologyType::Granite => 400,
        GeologyType::Metamorphic => 600,
        GeologyType::Volcanic => 700,
        GeologyType::Basalt => 300,
    }
}

/// Rock on which mountain ridges form.
pub open spec fn builds_mountains(g: GeologyType) -> bool {
    matches!(g, GeologyType::Metamorphic | GeologyType::Igneous | GeologyType::Granite)
}

/// Elevation of a cell: its rock's base, ridge noise on mountain-building rock,
/// hill and detail noise everywhere, clamped to `-1..=1`.
pub open spec fn layered_elevation(g: GeologyType, mountain: int, hill: int, detail: int) -> int {
    let ridge = if builds_mountains(g) {
        spec_fmul(mountain, 400)
    } else {
        0
    };
    spec_clamp(
        geology_base_elevation(g) + ridge + spec_fmul(hill, 200) + spec_fmul(detail, 100),
        -1000,
        1000,
    )
}

fn base_elevation_of(g: GeologyType) -> (v: i64)
    ensures
        v == geology_base_elevation(g),
{
    match g {
        GeologyType::OceanicCrust => -600,
        GeologyType::ContinentalShelf => -200,
        GeologyType::Sedimentary => 100,
        GeologyType::Limestone => 150,
        GeologyType::Sandstone => 200,
        GeologyType::Igneous | GeologyType::Granite => 400,
        GeologyType::Metamorphic => 600,
        GeologyType::Volcanic => 700,
        GeologyType::Basalt => 300,
    }
}

/// The elevation stage: layered elevation of every cell.
pub fn base_elevation(
    geology: &Vec<GeologyType>,
    mountain: &Vec<i64>,
    hill: &Vec<i64>,
    detail: &Vec<i64>,
) -> (e: Vec<i64>)
    requires
        mountain@.len() == geology@.len(),
        hill@.len() == geology@.len(),
        detail@.len() == geology@.len(),
        forall|i: int| 0 <= i < geology@.len() ==> sample_ok(#[trigger] mountain@[i]),
        forall|i: int| 0 <= i < geology@.len() ==> sample_ok(#[trigger] hill@[i]),
        forall|i: int| 0 <= i < geology@.len() ==> sample_ok(#[trigger] detail@[i]),
    ensures
        e@.len() == geology@.len(),
        unit_field(e@),
        forall|i: int|
            0 <= i < geology@.len() ==> #[trigger] e@[i] == layered_elevation(
                geology@[i],
                mountain@[i] as int,
                hill@[i] as int,
                detail@[i] as int,
            ),
{
    let mut e: Vec<i64> = Vec::new();
    let mut i: usize = 0;
    while i < geology.len()
        invariant
            i <= geology@.len(),
            mountain@.len() == geology@.len(),
            hill@.len() == geology@.len(),
            detail@.len() == geology@.len(),
            forall|k: int| 0 <= k < geology@.len() ==> sample_ok(#[trigger] mountain@[k]),
            forall|k: int| 0 <= k < geology@.len() ==> sample_ok(#[trigger] hill@[k]),
            forall|k: int| 0 <= k < geology@.len() ==> sample_ok(#[trigger] detail@[k]),
            e@.len() == i,
            unit_field(e@),
            forall|k: int|
                0 <= k < i ==> #[trigger] e@[k] == layered_elevation(
                    geology@[k],
                    mountain@[k] as int,
                    hill@[k] as int,
                    detail@[k] as int,
                ),
        decreases geology@.len() - i,
    {
        let g = geology[i];
        let ridge: i64 = if matches!(g, GeologyType::Metamorphic | GeologyType::Igneous | GeologyType::Granite) {
            fmul(mountain[i], 400)
        } else {
            0
        };
        let v = clamp(
            base_elevation_of(g) + ridge + fmul(hill[i], 200) + fmul(detail[i], 100),
            -1000,
            1000,
        );
        let ghost old_e = e@;
        e.push(v);
        assert(forall|k: int| 0 <= k < i ==> e@[k] == old_e[k]);
        i = i + 1;
    }
    e
}

/// Elevation of cell `i` after one erosion pass: a land cell (above zero)
/// standing above the mean of its neighbours loses two hundredths of the
/// excess, floored at `-1`.
pub open spec fn eroded(g: HexGrid, e: Seq<i64>, i: int) -> int {
    let h = e[i] as int;
    let n = nb_count(g, i, 6);
    let excess = h * n - nb_sum(g, e, i, 6);
    if h > 0 && n > 0 && excess > 0 {
        let v = h - (excess * 2) / (100 * n);
        if v < -1000 {
            -1000
        } else {
            v
        }
    } else {
        h
    }
}

/// The erosion stage: a single relaxation pass over all cells, each reading
/// the elevations from before the pass.
pub fn erode(g: &HexGrid, e: &Vec<i64>) -> (r: Vec<i64>)
    requires
        g.wf(),
        e@.len() == g.cells().len(),
        unit_field(e@),
    ensures
        r@.len() == e@.len(),
        unit_field(r@),
        forall|i: int| 0 <= i < e@.len() ==> #[trigger] r@[i] == eroded(*g, e@, i),
{
    let mut r: Vec<i64> = Vec::new();
    let mut i: usize = 0;
    while i < e.len()
        invariant
            g.wf(),
            e@.len() == g.cells().len(),
            unit_field(e@),
            i <= e@.len(),
            r@.len() == i,
            unit_field(r@),
            forall|k: int| 0 <= k < i ==> #[trigger] r@[k] == eroded(*g, e@, k),
        decreases e@.len() - i,
    {
        let h = e[i];
        let (sum, n, _) = neighbor_stats(g, e, i, 0);
        proof {
            assert(-6000 <= h * n <= 6000) by (nonlinear_arith)
                requires
                    -1000 <= h <= 1000,
                    0 <= n <= 6,
            ;
        }
        let excess = h * n - sum;
        let v: i64 = if h > 0 && n > 0 && excess > 0 {
            proof {
                assert(0 <= (excess * 2) / (100 * n) <= excess) by (nonlinear_arith)
                    requires
                        excess > 0,
                        n > 0,
                ;
            }
            let w = h - (excess * 2) / (100 * n);
            if w < -1000 {
                -1000
            } else {
                w
            }
        } else {
            h
        };
        proof {
            if h > 0 && n > 0 && excess > 0 {
                assert((excess * 2) / (100 * n) <= (h * n + 6000) / 50) by (nonlinear_arith)
                    requires
                        excess > 0,
                        n > 0,
                        excess == h * n - sum,
                        -6000 <= sum,
                ;
            }
        }
        let ghost old_r = r@;
        r.push(v);
        assert(forall|k: int| 0 <= k < i ==> r@[k] == old_r[k]);
        i = i + 1;
    }
    r
}

} // verus!

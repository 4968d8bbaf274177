//! Aggregates of a per-cell field over a cell's neighbours.
use vstd::prelude::*;
use crate::grid::HexGrid;

verus! {

/// A per-cell field whose values all lie in `-SCALE..=SCALE`.
pub open spec fn unit_field(e: Seq<i64>) -> bool {
    forall|i: int| 0 <= i < e.len() ==> -1000 <= #[trigger] e[i] <= 1000
}

/// Sum of `e` over the in-region neighbours of cell `i` in directions `0..d`.
pub open spec fn nb_sum(g: HexGrid, e: Seq<i64>, i: int, d: int) -> int
    decreases d,
{
    if d <= 0 {
        0
    } else {
        nb_sum(g, e, i, d - 1) + match g.spec_neighbor(i, d - 1) {
            Some(j) => e[j] as int,
            None => 0,
        }
    }
}

/// Number of in-region neighbours of cell `i` in directions `0..d`.
pub open spec fn nb_count(g: HexGrid, i: int, d: int) -> int
    decreases d,
{
    if d <= 0 {
        0
    } else {
        nb_count(g, i, d - 1) + if g.spec_neighbor(i, d - 1) is Some {
            1int
        } else {
            0
        }
    }
}

/// Number of in-region neighbours of cell `i` in directions `0..d` whose value
/// in `e` is strictly above `x`.
pub open spec fn nb_higher(g: HexGrid, e: Seq<i64>, i: int, x: int, d: int) -> int
    decreases d,
{
    if d <= 0 {
        0
    } else {
        nb_higher(g, e, i, x, d - 1) + match g.spec_neighbor(i, d - 1) {
            Some(j) => if e[j] > x {
                1int
            } else {
                0
            },
            None => 0,
        }
    }
}

/// Sum of `|e[i] - e[j]|` over the in-region neighbours `j` of cell `i` in directions `0..d`.
pub open spec fn nb_absdiff(g: HexGrid, e: Seq<i64>, i: int, d: int) -> int
    decreases d,
{
    if d <= 0 {
        0
    } else {
        nb_absdiff(g, e, i, d - 1) + match g.spec_neighbor(i, d - 1) {
            Some(j) => if e[i] >= e[j] {
                e[i] - e[j]
            } else {
                e[j] - e[i]
            },
            None => 0,
        }
    }
}

/// Whether some in-region neighbour of cell `i` in directions `0..d` has a value at most `x`.
pub open spec fn nb_any_at_most(g: HexGrid, e: Seq<i64>, i: int, x: int, d: int) -> bool
    decreases d,
{
    if d <= 0 {
        false
    } else {
        nb_any_at_most(g, e, i, x, d - 1) || match g.spec_neighbor(i, d - 1) {
            Some(j) => e[j] <= x,
            None => false,
        }
    }
}

/// Sum of absolute differences to the neighbours of cell `i`, and whether a
/// neighbour lies at or below `x`.
pub fn neighbor_relief(g: &HexGrid, e: &Vec<i64>, i: usize, x: i64) -> (r: (i64, bool))
    requires
        g.wf(),
        i < g.cells().len(),
        e@.len() == g.cells().len(),
        unit_field(e@),
    ensures
        r.0 == nb_absdiff(*g, e@, i as int, 6),
        r.1 == nb_any_at_most(*g, e@, i as int, x as int, 6),
        0 <= r.0 <= 12000,
{
    let mut sum: i64 = 0;
    let mut any = false;
    let mut d: usize = 0;
    while d < 6
        invariant
            g.wf(),
            i < g.cells().len(),
            e@.len() == g.cells().len(),
            unit_field(e@),
            d <= 6,
            sum == nb_absdiff(*g, e@, i as int, d as int),
            any == nb_any_at_most(*g, e@, i as int, x as int, d as int),
            0 <= sum <= 2000 * d,
        decreases 6 - d,
    {
        match g.neighbor(i, d) {
            Some(j) => {
                if e[i] >= e[j] {
                    sum = sum + (e[i] - e[j]);
                } else {
                    sum = sum + (e[j] - e[i]);
                }
                if e[j] <= x {
                    any = true;
                }
            },
            None => {},
        }
        d = d + 1;
    }
    (sum, any)
}

/// Sum, count, and count of values above `x`, of `e` over the neighbours of cell `i`.
pub fn neighbor_stats(g: &HexGrid, e: &Vec<i64>, i: usize, x: i64) -> (r: (i64, i64, i64))
    requires
        g.wf(),
        i < g.cells().len(),
        e@.len() == g.cells().len(),
        unit_field(e@),
    ensures
        r.0 == nb_sum(*g, e@, i as int, 6),
        r.1 == nb_count(*g, i as int, 6),
        r.2 == nb_higher(*g, e@, i as int, x as int, 6),
        -6000 <= r.0 <= 6000,
        0 <= r.1 <= 6,
        0 <= r.2 <= r.1,
{
    let mut sum: i64 = 0;
    let mut count: i64 = 0;
    let mut higher: i64 = 0;
    let mut d: usize = 0;
    while d < 6
        invariant
            g.wf(),
            i < g.cells().len(),
            e@.len() == g.cells().len(),
            unit_field(e@),
            d <= 6,
            sum == nb_sum(*g, e@, i as int, d as int),
            count == nb_count(*g, i as int, d as int),
            higher == nb_higher(*g, e@, i as int, x as int, d as int),
            -1000 * d <= sum <= 1000 * d,
            0 <= count <= d,
            0 <= higher <= count,
        decreases 6 - d,
    {
        match g.neighbor(i, d) {
            Some(j) => {
                sum = sum + e[j];
                count = count + 1;
                if e[j] > x {
                    higher = higher + 1;
                }
            },
            None => {},
        }
        d = d + 1;
    }
    (sum, count, higher)
}

} // verus!

//! Climate: distance to the ocean, temperature, precipitation, and rain shadows.
use vstd::prelude::*;
use crate::field::unit_field;
use crate::fixed::{clamp, fmul, spec_clamp, spec_fmul};
use crate::grid::{in_radius, HexGrid};
use crate::hex::{abs, dir_dq, dir_dr, hex_distance, spec_hex_distance, HexCoord};
use crate::tectonics::sample_ok;

verus! {

/// Beyond this many cells from the ocean, climate no longer changes with distance.
pub const OCEAN_REACH: i64 = 20;

/// Distance from cell `i` to the nearest ocean cell, capped at `OCEAN_REACH`:
/// no ocean cell is closer, and unless the cap applies, one is that close.
/// A cell with no ocean cell in the region gets `OCEAN_REACH`. The cap loses
/// nothing: see `lemma_ocean_reach_saturates`.
pub open spec fn is_ocean_distance(g: HexGrid, e: Seq<i64>, sea: int, i: int, d: int) -> bool {
    &&& 0 <= d <= OCEAN_REACH
    &&& forall|j: int|
        0 <= j < e.len() && e[j] <= sea ==> d <= spec_hex_distance(
            g.cells()[i],
            #[trigger] g.cells()[j],
        )
    &&& d == OCEAN_REACH || exists|j: int|
        0 <= j < e.len() && e[j] <= sea && spec_hex_distance(g.cells()[i], g.cells()[j]) == d
}

/// Distances at or beyond `OCEAN_REACH` (a cell with no ocean at all included)
/// give the same temperature and precipitation as `OCEAN_REACH` itself, so the
/// capped distance is exact for both climate terms.
pub proof fn lemma_ocean_reach_saturates(
    r: int,
    elev: int,
    sea: int,
    d: int,
    noise: int,
    global: int,
    extremeness: int,
    rainfall: int,
)
    requires
        d >= OCEAN_REACH,
    ensures
        temperature_of(r, elev, sea, d, noise, global) == temperature_of(
            r,
            elev,
            sea,
            OCEAN_REACH as int,
            noise,
            global,
        ),
        precipitation_of(r, elev, sea, d, noise, extremeness, rainfall) == precipitation_of(
            r,
            elev,
            sea,
            OCEAN_REACH as int,
            noise,
            extremeness,
            rainfall,
        ),
{
}

/// Only one value is the capped ocean distance of a cell.
pub proof fn lemma_ocean_distance_unique(g: HexGrid, e: Seq<i64>, sea: int, i: int, d1: int, d2: int)
    requires
        is_ocean_distance(g, e, sea, i, d1),
        is_ocean_distance(g, e, sea, i, d2),
    ensures
        d1 == d2,
{
    if d1 < d2 {
        let j = choose|j: int|
            0 <= j < e.len() && e[j] <= sea && spec_hex_distance(g.cells()[i], g.cells()[j]) == d1;
        assert(d2 <= spec_hex_distance(g.cells()[i], g.cells()[j]));
    } else if d2 < d1 {
        let j = choose|j: int|
            0 <= j < e.len() && e[j] <= sea && spec_hex_distance(g.cells()[i], g.cells()[j]) == d2;
        assert(d1 <= spec_hex_distance(g.cells()[i], g.cells()[j]));
    }
}

/// The cell at offset `(dq, dr)` from `c`.
pub open spec fn shifted(c: HexCoord, dq: int, dr: int) -> HexCoord {
    HexCoord { q: (c.q + dq) as i32, r: (c.r + dr) as i32 }
}

fn capped_ocean_distance(g: &HexGrid, e: &Vec<i64>, sea: i64, i: usize) -> (d: i64)
    requires
        g.wf(),
        e@.len() == g.cells().len(),
        i < e@.len(),
    ensures
        is_ocean_distance(*g, e@, sea as int, i as int, d as int),
{
    proof {
        g.lemma_wf();
    }
    let c = g.coord(i);
    let mut best: i64 = OCEAN_REACH;
    let mut dq: i64 = -OCEAN_REACH;
    while dq <= OCEAN_REACH
        invariant
            g.wf(),
            e@.len() == g.cells().len(),
            i < e@.len(),
            c == g.cells()[i as int],
            in_radius(g.spec_radius(), c),
            0 <= g.spec_radius() <= 1000,
            -OCEAN_REACH <= dq <= OCEAN_REACH + 1,
            0 <= best <= OCEAN_REACH,
            forall|j: int|
                0 <= j < e@.len() && e@[j] <= sea && #[trigger] g.cells()[j].q - c.q < dq ==> best
                    <= spec_hex_distance(c, g.cells()[j]),
            best == OCEAN_REACH || exists|j: int|
                0 <= j < e@.len() && e@[j] <= sea && spec_hex_distance(c, g.cells()[j]) == best,
        decreases OCEAN_REACH + 1 - dq,
    {
        let mut dr: i64 = -OCEAN_REACH;
        while dr <= OCEAN_REACH
            invariant
                g.wf(),
                e@.len() == g.cells().len(),
                i < e@.len(),
                c == g.cells()[i as int],
                in_radius(g.spec_radius(), c),
                0 <= g.spec_radius() <= 1000,
                -OCEAN_REACH <= dq <= OCEAN_REACH,
                -OCEAN_REACH <= dr <= OCEAN_REACH + 1,
                0 <= best <= OCEAN_REACH,
                forall|j: int|
                    0 <= j < e@.len() && e@[j] <= sea && (#[trigger] g.cells()[j].q - c.q < dq || (
                    g.cells()[j].q - c.q == dq && g.cells()[j].r - c.r < dr)) ==> best
                        <= spec_hex_distance(c, g.cells()[j]),
                best == OCEAN_REACH || exists|j: int|
                    0 <= j < e@.len() && e@[j] <= sea && spec_hex_distance(c, g.cells()[j]) == best,
            decreases OCEAN_REACH + 1 - dr,
        {
            let target = HexCoord { q: (c.q as i64 + dq) as i32, r: (c.r as i64 + dr) as i32 };
            match g.find(target) {
                Some(j) => {
                    if e[j] <= sea {
                        let dist = hex_distance(c, target);
                        if dist < best {
                            best = dist;
                        }
                    }
                },
                None => {},
            }
            proof {
                g.lemma_wf();
                assert forall|j: int|
                    0 <= j < e@.len() && e@[j] <= sea && (#[trigger] g.cells()[j].q - c.q < dq || (
                    g.cells()[j].q - c.q == dq && g.cells()[j].r - c.r < dr + 1)) implies best
                    <= spec_hex_distance(c, g.cells()[j]) by {
                    if g.cells()[j].q - c.q == dq && g.cells()[j].r - c.r == dr {
                        assert(g.cells()[j] == target);
                        assert(g.index_of(target) == j);
                    }
                }
            }
            dr = dr + 1;
        }
        dq = dq + 1;
    }
    proof {
        assert forall|j: int|
            0 <= j < e@.len() && e@[j] <= sea implies best <= spec_hex_distance(
            g.cells()[i as int],
            #[trigger] g.cells()[j],
        ) by {
            if !(g.cells()[j].q - c.q <= OCEAN_REACH) || !(g.cells()[j].q - c.q >= -OCEAN_REACH) || !(
            g.cells()[j].r - c.r <= OCEAN_REACH) || !(g.cells()[j].r - c.r >= -OCEAN_REACH) {
                assert(spec_hex_distance(c, g.cells()[j]) > OCEAN_REACH);
            }
        }
    }
    best
}

/// Capped distance to the ocean of every cell.
pub fn ocean_distances(g: &HexGrid, e: &Vec<i64>, sea: i64) -> (r: Vec<i64>)
    requires
        g.wf(),
        e@.len() == g.cells().len(),
    ensures
        r@.len() == e@.len(),
        forall|i: int|
            0 <= i < e@.len() ==> is_ocean_distance(*g, e@, sea as int, i, #[trigger] r@[i] as int),
{
    let mut r: Vec<i64> = Vec::new();
    let mut i: usize = 0;
    while i < e.len()
        invariant
            g.wf(),
            e@.len() == g.cells().len(),
            i <= e@.len(),
            r@.len() == i,
            forall|k: int|
                0 <= k < i ==> is_ocean_distance(*g, e@, sea as int, k, #[trigger] r@[k] as int),
        decreases e@.len() - i,
    {
        let d = capped_ocean_distance(g, e, sea, i);
        let ghost old_r = r@;
        r.push(d);
        assert(forall|k: int| 0 <= k < i ==> r@[k] == old_r[k]);
        i = i + 1;
    }
    r
}

/// Latitude proxy of row `r`: four thousandths per row from the equator.
pub open spec fn latitude(r: int) -> int {
    abs(r) * 4
}

/// Temperature of a cell: latitude warmth (at least 0.2), minus cooling with
/// height above the sea, plus noise and a continental term growing with
/// distance from the ocean; scaled by the global multiplier, then clamped to
/// `0..=1`.
pub open spec fn temperature_of(
    r: int,
    elev: int,
    sea: int,
    ocean_dist: int,
    noise: int,
    global: int,
) -> int {
    let base0 = 1000 - spec_fmul(latitude(r), 800);
    let base = if base0 >= 200 {
        base0
    } else {
        200
    };
    let cooling = if elev > sea {
        spec_fmul(elev - sea, 1500)
    } else {
        0
    };
    let continental0 = ocean_dist * 50;
    let continental = if continental0 <= 300 {
        continental0
    } else {
        300
    };
    let raw = base - cooling + spec_fmul(noise, 100) + spec_fmul(continental, 100);
    spec_clamp(spec_fmul(raw, global), 0, 1000)
}

/// Precipitation from latitude: wet tropics, a dry subtropical band,
/// temperate recovery and polar decline, kept within 0.1..0.9.
pub open spec fn latitude_precipitation(lat: int) -> int {
    let v = if lat < 150 {
        800 - spec_fmul(lat, 300)
    } else if lat < 300 {
        300 + spec_fmul(lat - 150, 800)
    } else if lat < 500 {
        500 + spec_fmul(lat - 300, 600)
    } else {
        400 - spec_fmul(lat - 500, 600)
    };
    spec_clamp(v, 100, 900)
}

/// Precipitation of a cell before rain shadows: the latitude band, a coastal
/// bonus, an orographic bonus on high ground and noise; scaled by the rainfall
/// multiplier, then clamped to `0..=1`.
pub open spec fn precipitation_of(
    r: int,
    elev: int,
    sea: int,
    ocean_dist: int,
    noise: int,
    extremeness: int,
    rainfall: int,
) -> int {
    let near0 = ocean_dist * 50;
    let near = if near0 <= 1000 {
        near0
    } else {
        1000
    };
    let coastal_bonus = spec_fmul(1000 - near, 200);
    let variation = spec_fmul(noise, spec_fmul(400, extremeness));
    let orographic = if elev > sea + 300 {
        200int
    } else {
        0
    };
    let raw = latitude_precipitation(latitude(r)) + coastal_bonus + orographic + variation;
    spec_clamp(spec_fmul(raw, rainfall), 0, 1000)
}

/// Temperature of every cell.
pub fn temperatures(
    g: &HexGrid,
    e: &Vec<i64>,
    sea: i64,
    ocean: &Vec<i64>,
    noise: &Vec<i64>,
    global: i64,
) -> (t: Vec<i64>)
    requires
        g.wf(),
        e@.len() == g.cells().len(),
        ocean@.len() == e@.len(),
        noise@.len() == e@.len(),
        unit_field(e@),
        -2000 <= sea <= 2000,
        0 <= global <= 2000,
        forall|i: int| 0 <= i < e@.len() ==> 0 <= #[trigger] ocean@[i] <= OCEAN_REACH,
        forall|i: int| 0 <= i < e@.len() ==> sample_ok(#[trigger] noise@[i]),
    ensures
        t@.len() == e@.len(),
        forall|i: int|
            0 <= i < e@.len() ==> #[trigger] t@[i] == temperature_of(
                g.cells()[i].r as int,
                e@[i] as int,
                sea as int,
                ocean@[i] as int,
                noise@[i] as int,
                global as int,
            ),
        forall|i: int| 0 <= i < e@.len() ==> 0 <= #[trigger] t@[i] <= 1000,
{
    proof {
        g.lemma_wf();
    }
    let mut t: Vec<i64> = Vec::new();
    let mut i: usize = 0;
    while i < e.len()
        invariant
            g.wf(),
            0 <= g.spec_radius() <= 1000,
            forall|k: int| 0 <= k < g.cells().len() ==> in_radius(g.spec_radius(), #[trigger] g.cells()[k]),
            e@.len() == g.cells().len(),
            ocean@.len() == e@.len(),
            noise@.len() == e@.len(),
            unit_field(e@),
            -2000 <= sea <= 2000,
            0 <= global <= 2000,
            forall|k: int| 0 <= k < e@.len() ==> 0 <= #[trigger] ocean@[k] <= OCEAN_REACH,
            forall|k: int| 0 <= k < e@.len() ==> sample_ok(#[trigger] noise@[k]),
            i <= e@.len(),
            t@.len() == i,
            forall|k: int|
                0 <= k < i ==> #[trigger] t@[k] == temperature_of(
                    g.cells()[k].r as int,
                    e@[k] as int,
                    sea as int,
                    ocean@[k] as int,
                    noise@[k] as int,
                    global as int,
                ),
            forall|k: int| 0 <= k < i ==> 0 <= #[trigger] t@[k] <= 1000,
        decreases e@.len() - i,
    {
        let c = g.coord(i);
        let row: i64 = c.r as i64;
        let lat: i64 = if row < 0 {
            -row * 4
        } else {
            row * 4
        };
        let base0 = 1000 - fmul(lat, 800);
        let base: i64 = if base0 >= 200 {
            base0
        } else {
            200
        };
        let cooling: i64 = if e[i] > sea {
            fmul(e[i] - sea, 1500)
        } else {
            0
        };
        let continental0 = ocean[i] * 50;
        let continental: i64 = if continental0 <= 300 {
            continental0
        } else {
            300
        };
        let nz = fmul(noise[i], 100);
        let ct = fmul(continental, 100);
        proof {
            assert(0 <= cooling <= 4950) by (nonlinear_arith)
                requires
                    e[i as int] > sea ==> cooling == ((e[i as int] - sea) * 1500) / 1000,
                    e[i as int] <= sea ==> cooling == 0,
                    -1000 <= e[i as int] <= 1000,
                    -2000 <= sea <= 2000,
            ;
            assert(-100 <= nz <= 100) by (nonlinear_arith)
                requires
                    nz == (noise[i as int] * 100) / 1000,
                    -1000 <= noise[i as int] <= 1000,
            ;
            assert(0 <= ct <= 30) by (nonlinear_arith)
                requires
                    ct == (continental * 100) / 1000,
                    0 <= continental <= 300,
            ;
        }
        let raw = base - cooling + nz + ct;
        let v = clamp(fmul(raw, global), 0, 1000);
        let ghost old_t = t@;
        t.push(v);
        assert(forall|k: int| 0 <= k < i ==> t@[k] == old_t[k]);
        i = i + 1;
    }
    t
}

/// Precipitation of every cell, before rain shadows.
pub fn precipitations(
    g: &HexGrid,
    e: &Vec<i64>,
    sea: i64,
    ocean: &Vec<i64>,
    noise: &Vec<i64>,
    extremeness: i64,
    rainfall: i64,
) -> (p: Vec<i64>)
    requires
        g.wf(),
        e@.len() == g.cells().len(),
        ocean@.len() == e@.len(),
        noise@.len() == e@.len(),
        unit_field(e@),
        -2000 <= sea <= 2000,
        0 <= extremeness <= 3000,
        0 <= rainfall <= 2000,
        forall|i: int| 0 <= i < e@.len() ==> 0 <= #[trigger] ocean@[i] <= OCEAN_REACH,
        forall|i: int| 0 <= i < e@.len() ==> sample_ok(#[trigger] noise@[i]),
    ensures
        p@.len() == e@.len(),
        forall|i: int|
            0 <= i < e@.len() ==> #[trigger] p@[i] == precipitation_of(
                g.cells()[i].r as int,
                e@[i] as int,
                sea as int,
                ocean@[i] as int,
                noise@[i] as int,
                extremeness as int,
                rainfall as int,
            ),
        forall|i: int| 0 <= i < e@.len() ==> 0 <= #[trigger] p@[i] <= 1000,
{
    proof {
        g.lemma_wf();
    }
    let mut p: Vec<i64> = Vec::new();
    let mut i: usize = 0;
    while i < e.len()
        invariant
            g.wf(),
            0 <= g.spec_radius() <= 1000,
            forall|k: int| 0 <= k < g.cells().len() ==> in_radius(g.spec_radius(), #[trigger] g.cells()[k]),
            e@.len() == g.cells().len(),
            ocean@.len() == e@.len(),
            noise@.len() == e@.len(),
            unit_field(e@),
            -2000 <= sea <= 2000,
            0 <= extremeness <= 3000,
            0 <= rainfall <= 2000,
            forall|k: int| 0 <= k < e@.len() ==> 0 <= #[trigger] ocean@[k] <= OCEAN_REACH,
            forall|k: int| 0 <= k < e@.len() ==> sample_ok(#[trigger] noise@[k]),
            i <= e@.len(),
            p@.len() == i,
            forall|k: int|
                0 <= k < i ==> #[trigger] p@[k] == precipitation_of(
                    g.cells()[k].r as int,
                    e@[k] as int,
                    sea as int,
                    ocean@[k] as int,
                    noise@[k] as int,
                    extremeness as int,
                    rainfall as int,
                ),
            forall|k: int| 0 <= k < i ==> 0 <= #[trigger] p@[k] <= 1000,
        decreases e@.len() - i,
    {
        let c = g.coord(i);
        let row: i64 = c.r as i64;
        let lat: i64 = if row < 0 {
            -row * 4
        } else {
            row * 4
        };
        let band: i64 = if lat < 150 {
            800 - fmul(lat, 300)
        } else if lat < 300 {
            300 + fmul(lat - 150, 800)
        } else if lat < 500 {
            500 + fmul(lat - 300, 600)
        } else {
            400 - fmul(lat - 500, 600)
        };
        let lat_p = clamp(band, 100, 900);
        let near0 = ocean[i] * 50;
        let near: i64 = if near0 <= 1000 {
            near0
        } else {
            1000
        };
        let coastal_bonus = fmul(1000 - near, 200);
        let spread = fmul(400, extremeness);
        proof {
            assert(0 <= spread <= 1200) by (nonlinear_arith)
                requires
                    spread == (400 * extremeness) / 1000,
                    0 <= extremeness <= 3000,
            ;
        }
        let variation = fmul(noise[i], spread);
        proof {
            assert(-1200 <= variation <= 1200) by (nonlinear_arith)
                requires
                    variation == (noise[i as int] * spread) / 1000,
                    -1000 <= noise[i as int] <= 1000,
                    0 <= spread <= 1200,
            ;
        }
        let orographic: i64 = if e[i] > sea + 300 {
            200
        } else {
            0
        };
        let raw = lat_p + coastal_bonus + orographic + variation;
        let v = clamp(fmul(raw, rainfall), 0, 1000);
        let ghost old_p = p@;
        p.push(v);
        assert(forall|k: int| 0 <= k < i ==> p@[k] == old_p[k]);
        i = i + 1;
    }
    p
}

/// The coordinate `k` steps from `c` in direction `d`.
pub open spec fn along(c: HexCoord, d: int, k: int) -> HexCoord {
    HexCoord { q: (c.q + k * dir_dq(d)) as i32, r: (c.r + k * dir_dr(d)) as i32 }
}

/// The first `j` cells of the ray from `s` in direction `d` all lie in the
/// region and below `top`.
pub open spec fn ray_clear(g: HexGrid, e: Seq<i64>, s: HexCoord, d: int, top: int, j: int) -> bool
    decreases j,
{
    if j <= 0 {
        true
    } else {
        ray_clear(g, e, s, d, top, j - 1) && in_radius(g.spec_radius(), along(s, d, j))
            && e[g.index_of(along(s, d, j))] < top
    }
}

/// Strength of a rain shadow `k` cells from its source: 0.3, decaying by 0.7 per cell.
pub open spec fn shadow_strength(k: int) -> int
    decreases k,
{
    if k <= 1 {
        300
    } else {
        shadow_strength(k - 1) * 7 / 10
    }
}

/// Shadow cast on cell `i` by the cell `k` steps upwind of it in direction `d`:
/// the source must stand more than 0.3 above the sea, and every cell from it
/// to `i` must lie more than 0.1 below it.
pub open spec fn shadow_term(g: HexGrid, e: Seq<i64>, sea: int, i: int, d: int, k: int) -> int {
    let s = along(g.cells()[i], (d + 3) % 6, k);
    if in_radius(g.spec_radius(), s) && e[g.index_of(s)] > sea + 300 && ray_clear(
        g,
        e,
        s,
        d,
        e[g.index_of(s)] - 100,
        k,
    ) {
        shadow_strength(k)
    } else {
        0
    }
}

/// Strongest shadow on cell `i` over the first `m` (direction, distance) pairs,
/// with `m - 1 = 7 * d + (k - 1)` for distance `k` in `1..=7`.
pub open spec fn shadow_scan(g: HexGrid, e: Seq<i64>, sea: int, i: int, m: int) -> int
    decreases m,
{
    if m <= 0 {
        0
    } else {
        let prev = shadow_scan(g, e, sea, i, m - 1);
        let t = shadow_term(g, e, sea, i, (m - 1) / 7, (m - 1) % 7 + 1);
        if t > prev {
            t
        } else {
            prev
        }
    }
}

/// Strongest rain shadow on cell `i`, over all six directions and up to seven cells.
pub open spec fn rain_shadow(g: HexGrid, e: Seq<i64>, sea: int, i: int) -> int {
    shadow_scan(g, e, sea, i, 42)
}

proof fn lemma_shadow_strength(k: int)
    requires
        1 <= k,
    ensures
        0 <= shadow_strength(k) <= 300,
    decreases k,
{
    if k > 1 {
        lemma_shadow_strength(k - 1);
    }
}

fn step_vector(d: usize) -> (v: (i64, i64))
    requires
        d < 6,
    ensures
        v.0 == dir_dq(d as int),
        v.1 == dir_dr(d as int),
        -1 <= v.0 <= 1,
        -1 <= v.1 <= 1,
{
    let c = crate::hex::step_in_direction(HexCoord { q: 0, r: 0 }, d);
    (c.q as i64, c.r as i64)
}

fn shadow_on(g: &HexGrid, e: &Vec<i64>, sea: i64, i: usize) -> (v: i64)
    requires
        g.wf(),
        e@.len() == g.cells().len(),
        unit_field(e@),
        i < e@.len(),
        -2000 <= sea <= 2000,
    ensures
        v == rain_shadow(*g, e@, sea as int, i as int),
        0 <= v <= 300,
{
    proof {
        g.lemma_wf();
    }
    let c = g.coord(i);
    let mut best: i64 = 0;
    let mut m: usize = 0;
    while m < 42
        invariant
            g.wf(),
            0 <= g.spec_radius() <= 1000,
            e@.len() == g.cells().len(),
            unit_field(e@),
            i < e@.len(),
            -2000 <= sea <= 2000,
            c == g.cells()[i as int],
            in_radius(g.spec_radius(), c),
            m <= 42,
            best == shadow_scan(*g, e@, sea as int, i as int, m as int),
            0 <= best <= 300,
        decreases 42 - m,
    {
        let d: usize = m / 7;
        let k: i64 = (m % 7 + 1) as i64;
        let (bq, br) = step_vector((d + 3) % 6);
        proof {
            assert(-7 <= k * bq <= 7 && -7 <= k * br <= 7) by (nonlinear_arith)
                requires
                    1 <= k <= 7,
                    -1 <= bq <= 1,
                    -1 <= br <= 1,
            ;
        }
        let s = HexCoord { q: (c.q as i64 + k * bq) as i32, r: (c.r as i64 + k * br) as i32 };
        assert(s == along(c, (d + 3) % 6, k as int));
        let mut term: i64 = 0;
        match g.find(s) {
            Some(si) => {
                if e[si] > sea + 300 {
                    let top = e[si] - 100;
                    let (fq, fr) = step_vector(d);
                    let mut clear = true;
                    let mut j: i64 = 1;
                    while j <= k
                        invariant
                            g.wf(),
                            e@.len() == g.cells().len(),
                            1 <= j <= k + 1,
                            1 <= k <= 7,
                            -1000 <= s.q <= 1000 + 7 && -1007 <= s.q,
                            -1007 <= s.r <= 1007,
                            fq == dir_dq(d as int),
                            fr == dir_dr(d as int),
                            clear == ray_clear(*g, e@, s, d as int, top as int, j - 1),
                        decreases k + 1 - j,
                    {
                        proof {
                            assert(-7 <= j * fq <= 7 && -7 <= j * fr <= 7) by (nonlinear_arith)
                                requires
                                    1 <= j <= 7,
                                    -1 <= fq <= 1,
                                    -1 <= fr <= 1,
                            ;
                        }
                        let x = HexCoord { q: (s.q as i64 + j * fq) as i32, r: (s.r as i64 + j * fr) as i32 };
                        assert(x == along(s, d as int, j as int));
                        match g.find(x) {
                            Some(xi) => {
                                if !(e[xi] < top) {
                                    clear = false;
                                }
                            },
                            None => {
                                clear = false;
                            },
                        }
                        j = j + 1;
                    }
                    if clear {
                        let mut st: i64 = 300;
                        let mut kk: i64 = 1;
                        while kk < k
                            invariant
                                1 <= kk <= k,
                                k <= 7,
                                st == shadow_strength(kk as int),
                                0 <= st <= 300,
                            decreases k - kk,
                        {
                            proof {
                                lemma_shadow_strength(kk + 1);
                            }
                            st = st * 7 / 10;
                            kk = kk + 1;
                        }
                        term = st;
                    }
                }
            },
            None => {},
        }
        proof {
            lemma_shadow_strength(k as int);
            assert(term == shadow_term(*g, e@, sea as int, i as int, d as int, k as int));
        }
        if term > best {
            best = term;
        }
        m = m + 1;
    }
    best
}

/// Precipitation after rain shadows: each cell loses the share of its
/// precipitation given by the strongest shadow it lies in (not their sum).
pub fn apply_rain_shadows(g: &HexGrid, e: &Vec<i64>, sea: i64, precip: &Vec<i64>) -> (p: Vec<i64>)
    requires
        g.wf(),
        e@.len() == g.cells().len(),
        precip@.len() == e@.len(),
        unit_field(e@),
        -2000 <= sea <= 2000,
        forall|i: int| 0 <= i < e@.len() ==> 0 <= #[trigger] precip@[i] <= 1000,
    ensures
        p@.len() == e@.len(),
        forall|i: int|
            0 <= i < e@.len() ==> #[trigger] p@[i] == spec_fmul(
                precip@[i] as int,
                1000 - rain_shadow(*g, e@, sea as int, i),
            ),
        forall|i: int| 0 <= i < e@.len() ==> 0 <= #[trigger] p@[i] <= 1000,
{
    let mut p: Vec<i64> = Vec::new();
    let mut i: usize = 0;
    while i < e.len()
        invariant
            g.wf(),
            e@.len() == g.cells().len(),
            precip@.len() == e@.len(),
            unit_field(e@),
            -2000 <= sea <= 2000,
            forall|k: int| 0 <= k < e@.len() ==> 0 <= #[trigger] precip@[k] <= 1000,
            i <= e@.len(),
            p@.len() == i,
            forall|k: int|
                0 <= k < i ==> #[trigger] p@[k] == spec_fmul(
                    precip@[k] as int,
                    1000 - rain_shadow(*g, e@, sea as int, k),
                ),
            forall|k: int| 0 <= k < i ==> 0 <= #[trigger] p@[k] <= 1000,
        decreases e@.len() - i,
    {
        let shadow = shadow_on(g, e, sea, i);
        let v = fmul(precip[i], 1000 - shadow);
        proof {
            assert(0 <= v <= 1000) by (nonlinear_arith)
                requires
                    v == (precip[i as int] * (1000 - shadow)) / 1000,
                    0 <= precip[i as int] <= 1000,
                    0 <= shadow <= 300,
            ;
        }
        let ghost old_p = p@;
        p.push(v);
        assert(forall|k: int| 0 <= k < i ==> p@[k] == old_p[k]);
        i = i + 1;
    }
    p
}

} // verus!

//! Continental seeds, continental influence and geology classification.
use vstd::prelude::*;
use crate::config::WorldGenConfig;
use crate::fixed::{div_floor, SCALE};
use crate::grid::HexGrid;
use crate::hex::{dir_dq, dir_dr, hex_distance, spec_hex_distance, HexCoord};
use crate::random::{ring_len, zone_ring_radius, RandomDraws};
use crate::terrain::GeologyType;

verus! {

/// Integer division rounding toward zero.
pub open spec fn tdiv(a: int, b: int) -> int {
    if a >= 0 {
        a / b
    } else {
        -((-a) / b)
    }
}

fn div_trunc(a: i64, b: i64) -> (r: i64)
    requires
        b > 0,
        a > i64::MIN,
    ensures
        r == tdiv(a as int, b as int),
{
    if a >= 0 {
        a / b
    } else {
        -((-a) / b)
    }
}

/// Cell `t` (counted from the corner in direction 0) of the ring of radius `rho`.
pub open spec fn ring_point(rho: int, t: int) -> (int, int) {
    if rho == 0 {
        (0, 0)
    } else {
        let side = t / rho;
        let o = t % rho;
        (
            rho * dir_dq(side) + o * dir_dq((side + 2) % 6),
            rho * dir_dr(side) + o * dir_dr((side + 2) % 6),
        )
    }
}

fn ring_point_exec(rho: i64, t: i64) -> (p: (i64, i64))
    requires
        0 <= rho <= 10_000,
        0 <= t < ring_len(rho as int),
    ensures
        p.0 == ring_point(rho as int, t as int).0,
        p.1 == ring_point(rho as int, t as int).1,
        -20_000 <= p.0 <= 20_000,
        -20_000 <= p.1 <= 20_000,
{
    if rho == 0 {
        (0, 0)
    } else {
        let side = t / rho;
        let o = t % rho;
        proof {
            assert(0 <= side < 6) by (nonlinear_arith)
                requires
                    side == t / rho,
                    0 <= t < 6 * rho,
                    rho > 0,
            ;
        }
        let a = crate::hex::step_in_direction(HexCoord { q: 0, r: 0 }, side as usize);
        let b = crate::hex::step_in_direction(HexCoord { q: 0, r: 0 }, ((side + 2) % 6) as usize);
        proof {
            assert(-rho <= rho * a.q <= rho && -rho <= rho * a.r <= rho) by (nonlinear_arith)
                requires
                    -1 <= a.q <= 1,
                    -1 <= a.r <= 1,
                    rho > 0,
            ;
            assert(-rho <= o * b.q <= rho && -rho <= o * b.r <= rho) by (nonlinear_arith)
                requires
                    -1 <= b.q <= 1,
                    -1 <= b.r <= 1,
                    0 <= o < rho,
            ;
        }
        (rho * (a.q as i64) + o * (b.q as i64), rho * (a.r as i64) + o * (b.r as i64))
    }
}

/// Distance, in cells, between twin continents (at least 20).
pub open spec fn twin_separation(config: WorldGenConfig, radius: int) -> int {
    let s = radius * 600 * config.continent_separation / 1_000_000;
    if s >= 20 {
        s
    } else {
        20
    }
}

/// Radius of the circle on which three or more continents are placed (at least 20).
pub open spec fn circle_radius(config: WorldGenConfig, radius: int) -> int {
    let s = radius * 400 * config.continent_separation / 1_000_000;
    if s >= 20 {
        s
    } else {
        20
    }
}

/// Scale factor (thousandths) that pulls seeds together above the clustering
/// midpoint and pushes them apart below it.
pub open spec fn cluster_scale(config: WorldGenConfig) -> int {
    if config.continent_clustering > 500 {
        1000 - (config.continent_clustering - 500)
    } else {
        1000 + (500 - config.continent_clustering) * 2
    }
}

/// Largest coordinate magnitude a continent seed may take: twenty cells inside
/// the map edge; on maps of radius below 20, where that margin does not exist,
/// half the radius.
pub open spec fn seed_margin(radius: int) -> int {
    if radius >= 20 {
        radius - 20
    } else {
        radius / 2
    }
}

pub open spec fn clamp_margin(x: int, m: int) -> int {
    if x < -m {
        -m
    } else if x > m {
        m
    } else {
        x
    }
}

/// Seed `i` of `count >= 3` continents: evenly spaced on a ring, scaled by the
/// clustering factor, jittered, and kept within the margin.
pub open spec fn circle_seed(
    config: WorldGenConfig,
    radius: int,
    i: int,
    jitter: (i64, i64),
) -> HexCoord {
    let rho = circle_radius(config, radius);
    let p = ring_point(rho, i * (6 * rho) / (config.continent_count as int));
    let f = cluster_scale(config);
    let m = seed_margin(radius);
    HexCoord {
        q: clamp_margin(tdiv(p.0 * f, 1000) + jitter.0, m) as i32,
        r: clamp_margin(tdiv(p.1 * f, 1000) + jitter.1, m) as i32,
    }
}

/// The continent seeds proper, before archipelago zones.
pub open spec fn main_seeds(config: WorldGenConfig, radius: int, jitter: Seq<(i64, i64)>) -> Seq<
    HexCoord,
> {
    if config.continent_count == 1 {
        seq![HexCoord { q: 0, r: 0 }]
    } else if config.continent_count == 2 {
        let s = twin_separation(config, radius);
        seq![HexCoord { q: (-(s / 2)) as i32, r: 0 }, HexCoord { q: (s / 2) as i32, r: 0 }]
    } else {
        Seq::new(config.continent_count as nat, |i: int| circle_seed(config, radius, i, jitter[i]))
    }
}

/// Distance from a zone centre to each of its three island seeds.
pub const ZONE_SPREAD: i64 = 15;

/// Island seed `j` (0..3) of the zone at ring position `t`, if it lies inside the inner map.
pub open spec fn zone_seed(radius: int, t: int, j: int) -> Option<HexCoord> {
    let base = ring_point(zone_ring_radius(radius), t);
    let q = base.0 + ZONE_SPREAD * dir_dq(2 * j);
    let r = base.1 + ZONE_SPREAD * dir_dr(2 * j);
    if -(radius - 10) < q < radius - 10 && -(radius - 10) < r < radius - 10 {
        Some(HexCoord { q: q as i32, r: r as i32 })
    } else {
        None
    }
}

pub open spec fn opt_seq(o: Option<HexCoord>) -> Seq<HexCoord> {
    match o {
        Some(c) => seq![c],
        None => Seq::empty(),
    }
}

pub open spec fn zone_seeds(radius: int, t: int) -> Seq<HexCoord> {
    opt_seq(zone_seed(radius, t, 0)) + opt_seq(zone_seed(radius, t, 1)) + opt_seq(
        zone_seed(radius, t, 2),
    )
}

pub open spec fn all_zone_seeds(radius: int, ts: Seq<i64>) -> Seq<HexCoord>
    decreases ts.len(),
{
    if ts.len() == 0 {
        Seq::empty()
    } else {
        all_zone_seeds(radius, ts.drop_last()) + zone_seeds(radius, ts.last() as int)
    }
}

/// All continental seeds of a run.
pub open spec fn continent_seeds(config: WorldGenConfig, radius: int, draws: RandomDraws) -> Seq<
    HexCoord,
> {
    main_seeds(config, radius, draws.center_jitter@) + all_zone_seeds(
        radius,
        draws.zone_positions@,
    )
}

fn circle_seed_exec(config: &WorldGenConfig, radius: i32, i: usize, jitter: (i64, i64)) -> (c:
    HexCoord)
    requires
        config.valid(),
        config.continent_count >= 3,
        0 <= radius <= 1000,
        i < config.continent_count,
        -10 <= jitter.0 <= 10,
        -10 <= jitter.1 <= 10,
    ensures
        c == circle_seed(*config, radius as int, i as int, jitter),
{
    proof {
        assert(0 <= radius as i64 * 400 * config.continent_separation <= 1000 * 400 * 3000) by (
        nonlinear_arith)
            requires
                0 <= radius <= 1000,
                0 <= config.continent_separation <= 3000,
        ;
    }
    let s: i64 = radius as i64 * 400 * config.continent_separation / 1_000_000;
    let rho: i64 = if s >= 20 {
        s
    } else {
        20
    };
    assert(rho <= 1200);
    let n = config.continent_count as i64;
    proof {
        assert(0 <= (i as int) * (6 * rho) / (n as int) < 6 * rho) by (nonlinear_arith)
            requires
                0 <= i < n,
                rho > 0,
        ;
        assert(0 <= (i as int) * (6 * rho) <= 8 * 6 * 1200) by (nonlinear_arith)
            requires
                0 <= i < n,
                n <= 8,
                0 < rho <= 1200,
        ;
    }
    let t: i64 = (i as i64) * (6 * rho) / n;
    let p = ring_point_exec(rho, t);
    let f: i64 = if config.continent_clustering > 500 {
        1000 - (config.continent_clustering - 500)
    } else {
        1000 + (500 - config.continent_clustering) * 2
    };
    proof {
        assert(-1_000_000_000 <= p.0 * f <= 1_000_000_000 && -1_000_000_000 <= p.1 * f
            <= 1_000_000_000) by (nonlinear_arith)
            requires
                -20_000 <= p.0 <= 20_000,
                -20_000 <= p.1 <= 20_000,
                0 <= f <= 2000,
        ;
    }
    let m: i64 = if radius >= 20 {
        radius as i64 - 20
    } else {
        radius as i64 / 2
    };
    let q0 = div_trunc(p.0 * f, 1000) + jitter.0;
    let r0 = div_trunc(p.1 * f, 1000) + jitter.1;
    let q1 = if q0 < -m {
        -m
    } else if q0 > m {
        m
    } else {
        q0
    };
    let r1 = if r0 < -m {
        -m
    } else if r0 > m {
        m
    } else {
        r0
    };
    HexCoord { q: q1 as i32, r: r1 as i32 }
}

fn zone_seeds_exec(radius: i32, t: i64, out: &mut Vec<HexCoord>)
    requires
        0 <= radius <= 1000,
        0 <= t < ring_len(zone_ring_radius(radius as int)),
    ensures
        final(out)@ == old(out)@ + zone_seeds(radius as int, t as int),
{
    let rho: i64 = radius as i64 * 7 / 10;
    let base = ring_point_exec(rho, t);
    let lim: i64 = radius as i64 - 10;
    let ghost start = out@;
    let mut j: usize = 0;
    while j < 3
        invariant
            0 <= radius <= 1000,
            j <= 3,
            rho == zone_ring_radius(radius as int),
            base.0 == ring_point(rho as int, t as int).0,
            base.1 == ring_point(rho as int, t as int).1,
            -20_000 <= base.0 <= 20_000,
            -20_000 <= base.1 <= 20_000,
            lim == radius - 10,
            j == 0 ==> out@ == start,
            j == 1 ==> out@ == start + opt_seq(zone_seed(radius as int, t as int, 0)),
            j == 2 ==> out@ == start + opt_seq(zone_seed(radius as int, t as int, 0)) + opt_seq(
                zone_seed(radius as int, t as int, 1),
            ),
            j == 3 ==> out@ == start + zone_seeds(radius as int, t as int),
        decreases 3 - j,
    {
        let d = crate::hex::step_in_direction(HexCoord { q: 0, r: 0 }, 2 * j);
        let q = base.0 + ZONE_SPREAD * (d.q as i64);
        let r = base.1 + ZONE_SPREAD * (d.r as i64);
        if -lim < q && q < lim && -lim < r && r < lim {
            out.push(HexCoord { q: q as i32, r: r as i32 });
        }
        proof {
            if j == 2 {
                assert(start + opt_seq(zone_seed(radius as int, t as int, 0)) + opt_seq(
                    zone_seed(radius as int, t as int, 1),
                ) + opt_seq(zone_seed(radius as int, t as int, 2)) =~= start + zone_seeds(
                    radius as int,
                    t as int,
                ));
            }
        }
        j = j + 1;
    }
}

/// Places the continental seeds: one at the centre for a single continent, two
/// on the `q` axis at the configured separation for twins, otherwise evenly on a
/// ring; then three island seeds around each archipelago zone.
pub fn continent_centers(config: &WorldGenConfig, radius: i32, draws: &RandomDraws) -> (cs: Vec<
    HexCoord,
>)
    requires
        config.valid(),
        0 <= radius <= 1000,
        draws.fits(*config, radius as int),
    ensures
        cs@ == continent_seeds(*config, radius as int, *draws),
{
    let mut cs: Vec<HexCoord> = Vec::new();
    if config.continent_count == 1 {
        cs.push(HexCoord { q: 0, r: 0 });
        assert(cs@ =~= main_seeds(*config, radius as int, draws.center_jitter@));
    } else if config.continent_count == 2 {
        proof {
            assert(radius as i64 * 600 * config.continent_separation <= 1000 * 600 * 3000) by (
            nonlinear_arith)
                requires
                    0 <= radius <= 1000,
                    config.continent_separation <= 3000,
            ;
        }
        let s0: i64 = radius as i64 * 600 * config.continent_separation / 1_000_000;
        let s: i64 = if s0 >= 20 {
            s0
        } else {
            20
        };
        cs.push(HexCoord { q: (-(s / 2)) as i32, r: 0 });
        cs.push(HexCoord { q: (s / 2) as i32, r: 0 });
        assert(cs@ =~= main_seeds(*config, radius as int, draws.center_jitter@));
    } else {
        let mut i: usize = 0;
        while i < config.continent_count
            invariant
                config.valid(),
                config.continent_count >= 3,
                0 <= radius <= 1000,
                draws.fits(*config, radius as int),
                i <= config.continent_count,
                cs@.len() == i,
                forall|k: int|
                    0 <= k < i ==> #[trigger] cs@[k] == circle_seed(
                        *config,
                        radius as int,
                        k,
                        draws.center_jitter@[k],
                    ),
            decreases config.continent_count - i,
        {
            let c = circle_seed_exec(config, radius, i, draws.center_jitter[i]);
            cs.push(c);
            i = i + 1;
        }
        assert(cs@ =~= main_seeds(*config, radius as int, draws.center_jitter@));
    }
    let ghost main = cs@;
    let mut z: usize = 0;
    while z < config.archipelago_zones
        invariant
            config.valid(),
            0 <= radius <= 1000,
            draws.fits(*config, radius as int),
            z <= config.archipelago_zones,
            main == main_seeds(*config, radius as int, draws.center_jitter@),
            cs@ == main + all_zone_seeds(radius as int, draws.zone_positions@.take(z as int)),
        decreases config.archipelago_zones - z,
    {
        let ghost before = cs@;
        zone_seeds_exec(radius, draws.zone_positions[z], &mut cs);
        proof {
            let ts = draws.zone_positions@.take(z + 1);
            assert(ts.drop_last() =~= draws.zone_positions@.take(z as int));
            assert(ts.last() == draws.zone_positions@[z as int]);
            assert(cs@ =~= main + all_zone_seeds(radius as int, ts));
        }
        z = z + 1;
    }
    assert(draws.zone_positions@.take(z as int) =~= draws.zone_positions@);
    cs
}

/// Share of its reach that continental influence keeps per cell of distance
/// (thousandths): the discrete form of `exp(-1 / (40 * size))`.
pub open spec fn retention(config: WorldGenConfig) -> int {
    1000 - 25000int / (config.continent_size as int)
}

/// Continental influence at distance `d` from the nearest seed: `SCALE`
/// decaying geometrically by `ret` thousandths per cell.
pub open spec fn influence(ret: int, d: nat) -> int
    decreases d,
{
    if d == 0 {
        SCALE as int
    } else {
        influence(ret, (d - 1) as nat) * ret / 1000
    }
}

proof fn lemma_influence_range(ret: int, d: nat)
    requires
        0 <= ret <= 1000,
    ensures
        0 <= influence(ret, d) <= SCALE,
    decreases d,
{
    if d > 0 {
        lemma_influence_range(ret, (d - 1) as nat);
        let p = influence(ret, (d - 1) as nat);
        assert(0 <= p * ret / 1000 <= 1000) by (nonlinear_arith)
            requires
                0 <= p <= 1000,
                0 <= ret <= 1000,
        ;
    }
}

proof fn lemma_influence_zero(ret: int, k: nat, d: nat)
    requires
        k <= d,
        influence(ret, k) == 0,
    ensures
        influence(ret, d) == 0,
    decreases d - k,
{
    if k < d {
        lemma_influence_zero(ret, k, (d - 1) as nat);
    }
}

/// Computes `influence(ret, d)`.
pub fn continental_influence(ret: i64, d: i64) -> (v: i64)
    requires
        0 <= ret <= 1000,
        d >= 0,
    ensures
        v == influence(ret as int, d as nat),
        0 <= v <= SCALE,
{
    let mut v: i64 = SCALE;
    let mut k: i64 = 0;
    while k < d && v > 0
        invariant
            0 <= ret <= 1000,
            0 <= k <= d,
            v == influence(ret as int, k as nat),
            0 <= v <= SCALE,
        decreases d - k,
    {
        proof {
            assert(0 <= v * ret <= 1_000_000) by (nonlinear_arith)
                requires
                    0 <= v <= 1000,
                    0 <= ret <= 1000,
            ;
            lemma_influence_range(ret as int, (k + 1) as nat);
        }
        v = v * ret / 1000;
        k = k + 1;
    }
    proof {
        if k < d {
            lemma_influence_zero(ret as int, k as nat, d as nat);
        }
    }
    v
}

/// Distance from `c` to the nearest of `seeds`, if there is one.
pub open spec fn nearest_distance(c: HexCoord, seeds: Seq<HexCoord>) -> Option<int>
    decreases seeds.len(),
{
    if seeds.len() == 0 {
        None
    } else {
        let d = spec_hex_distance(c, seeds.last());
        match nearest_distance(c, seeds.drop_last()) {
            None => Some(d),
            Some(m) => Some(if d < m { d } else { m }),
        }
    }
}

/// Plate-boundary value above which, at volcanic activity `v`, volcanic islands rise.
pub open spec fn volcanic_threshold(v: int) -> int {
    800 * (2000 - v) / 1000
}

/// Mixture of continental influence and plate-boundary noise.
pub open spec fn continental_base(infl: int, plate: int) -> int {
    (infl * 7 + plate * 3) / 10
}

/// Volcanic uplift where the boundary value is high and the base still oceanic.
pub open spec fn volcanic_term(config: WorldGenConfig, plate: int, base: int) -> int {
    if plate > volcanic_threshold(config.volcanic_activity as int) && base < 200 {
        400 * config.volcanic_activity / 1000
    } else {
        0
    }
}

/// Geology from the combined continental value, the boundary value and the volcanic term.
pub open spec fn classify_geology(value: int, plate: int, volcanic: int) -> GeologyType {
    if value > 300 {
        if plate > 600 {
            GeologyType::Granite
        } else if plate > 300 {
            GeologyType::Metamorphic
        } else {
            GeologyType::Sedimentary
        }
    } else if value > 100 {
        GeologyType::ContinentalShelf
    } else if volcanic > 0 {
        GeologyType::Volcanic
    } else {
        GeologyType::OceanicCrust
    }
}

/// Combined continental value of a cell at seed distance `d` with boundary value `plate`.
pub open spec fn continental_value(config: WorldGenConfig, d: Option<int>, plate: int) -> int {
    let infl = match d {
        Some(k) => influence(retention(config), k as nat),
        None => 0,
    };
    let base = continental_base(infl, plate);
    base + volcanic_term(config, plate, base)
}

pub open spec fn cell_geology(config: WorldGenConfig, d: Option<int>, plate: int) -> GeologyType {
    let infl = match d {
        Some(k) => influence(retention(config), k as nat),
        None => 0,
    };
    let base = continental_base(infl, plate);
    classify_geology(
        base + volcanic_term(config, plate, base),
        plate,
        volcanic_term(config, plate, base),
    )
}

/// A noise sample lies in `-SCALE..=SCALE`.
pub open spec fn sample_ok(x: i64) -> bool {
    -SCALE <= x <= SCALE
}

fn nearest_seed_distance(c: HexCoord, seeds: &Vec<HexCoord>) -> (r: Option<i64>)
    ensures
        r matches Some(d) ==> nearest_distance(c, seeds@) == Some(d as int) && d >= 0,
        r is None ==> nearest_distance(c, seeds@) is None,
{
    let mut best: Option<i64> = None;
    let mut k: usize = 0;
    while k < seeds.len()
        invariant
            k <= seeds@.len(),
            best matches Some(d) ==> nearest_distance(c, seeds@.take(k as int)) == Some(d as int)
                && d >= 0,
            best is None ==> nearest_distance(c, seeds@.take(k as int)) is None,
        decreases seeds@.len() - k,
    {
        let d = hex_distance(c, seeds[k]);
        proof {
            let t = seeds@.take(k + 1);
            assert(t.drop_last() =~= seeds@.take(k as int));
            assert(t.last() == seeds@[k as int]);
        }
        best = match best {
            None => Some(d),
            Some(m) => Some(
                if d < m {
                    d
                } else {
                    m
                },
            ),
        };
        k = k + 1;
    }
    assert(seeds@.take(k as int) =~= seeds@);
    best
}

/// The tectonic stage: for every cell, the combined continental value
/// (provisional elevation) and the geology it implies.
pub fn tectonic_stage(
    grid: &HexGrid,
    config: &WorldGenConfig,
    seeds: &Vec<HexCoord>,
    plate: &Vec<i64>,
) -> (r: (Vec<i64>, Vec<GeologyType>))
    requires
        grid.wf(),
        config.valid(),
        plate@.len() == grid.cells().len(),
        forall|i: int| 0 <= i < plate@.len() ==> sample_ok(#[trigger] plate@[i]),
    ensures
        r.0@.len() == grid.cells().len(),
        r.1@.len() == grid.cells().len(),
        forall|i: int|
            0 <= i < grid.cells().len() ==> #[trigger] r.0@[i] == continental_value(
                *config,
                nearest_distance(grid.cells()[i], seeds@),
                plate@[i] as int,
            ),
        forall|i: int|
            0 <= i < grid.cells().len() ==> #[trigger] r.1@[i] == cell_geology(
                *config,
                nearest_distance(grid.cells()[i], seeds@),
                plate@[i] as int,
            ),
{
    proof {
        assert(0 <= 25000i64 / config.continent_size <= 250) by (nonlinear_arith)
            requires
                config.continent_size >= 100,
        ;
    }
    let ret: i64 = 1000 - 25000 / config.continent_size;
    let vt: i64 = 800 * (2000 - config.volcanic_activity) / 1000;
    let mut elev: Vec<i64> = Vec::new();
    let mut geo: Vec<GeologyType> = Vec::new();
    let n = grid.len();
    let mut i: usize = 0;
    while i < n
        invariant
            grid.wf(),
            config.valid(),
            n == grid.cells().len(),
            plate@.len() == n,
            forall|k: int| 0 <= k < plate@.len() ==> sample_ok(#[trigger] plate@[k]),
            ret == retention(*config),
            750 <= ret <= 1000,
            vt == volcanic_threshold(config.volcanic_activity as int),
            i <= n,
            elev@.len() == i,
            geo@.len() == i,
            forall|k: int|
                0 <= k < i ==> #[trigger] elev@[k] == continental_value(
                    *config,
                    nearest_distance(grid.cells()[k], seeds@),
                    plate@[k] as int,
                ),
            forall|k: int|
                0 <= k < i ==> #[trigger] geo@[k] == cell_geology(
                    *config,
                    nearest_distance(grid.cells()[k], seeds@),
                    plate@[k] as int,
                ),
        decreases n - i,
    {
        let c = grid.coord(i);
        let nd = nearest_seed_distance(c, seeds);
        let infl: i64 = match nd {
            Some(d) => continental_influence(ret, d),
            None => 0,
        };
        let ghost sd = nearest_distance(c, seeds@);
        assert(infl == match sd {
            Some(k) => influence(retention(*config), k as nat),
            None => 0,
        });
        let p = plate[i];
        let base = div_floor(infl * 7 + p * 3, 10);
        let volcanic: i64 = if p > vt && base < 200 {
            400 * config.volcanic_activity / 1000
        } else {
            0
        };
        let value = base + volcanic;
        let g = if value > 300 {
            if p > 600 {
                GeologyType::Granite
            } else if p > 300 {
                GeologyType::Metamorphic
            } else {
                GeologyType::Sedimentary
            }
        } else if value > 100 {
            GeologyType::ContinentalShelf
        } else if volcanic > 0 {
            GeologyType::Volcanic
        } else {
            GeologyType::OceanicCrust
        };
        assert(base == continental_base(infl as int, p as int));
        assert(value == continental_value(*config, sd, p as int));
        assert(g == cell_geology(*config, sd, p as int));
        let ghost old_elev = elev@;
        let ghost old_geo = geo@;
        elev.push(value);
        geo.push(g);
        assert(elev@[i as int] == value);
        assert(geo@[i as int] == g);
        assert(forall|k: int| 0 <= k < i ==> elev@[k] == old_elev[k] && geo@[k] == old_geo[k]);
        i = i + 1;
    }
    let r = (elev, geo);
    r
}

} // verus!

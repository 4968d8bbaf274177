//! The generation pipeline and the per-cell record it produces.
use vstd::prelude::*;
use crate::accumulation::{balanced, flow_accumulation, lemma_balanced_unique};
use crate::biome::{assign_biomes, fertility_of};
use crate::climate::{
    apply_rain_shadows, is_ocean_distance, lemma_ocean_distance_unique, ocean_distances,
    precipitations, temperatures,
};
use crate::config::{WorldGenConfig, WorldGenError};
use crate::elevation::{base_elevation, erode};
use crate::field::unit_field;
use crate::grid::{cell_count, in_radius, lemma_cell_count, HexGrid, MAX_RADIUS};
use crate::hex::HexCoord;
use crate::hydrology::{drainage, flow_directions};
use crate::lakes::{
    greedy_lakes, lake_candidate, lake_window, lemma_ranking_unique, place_lakes, rank_lake_candidates,
    ranking,
};
use crate::model::{
    acc_view, base_sea_level, flow_view, generated, ocean_view, precipitation_view, surface_view,
    temperature_view, terrain_elevation, terrain_geology, terrain_raw, tile_is, zeros, SurfaceView,
    lakes_view, ranked_view, with_lakes,
};
use crate::random::RandomDraws;
use crate::resources::{biome_resource, gated_pick, generator_resources, ResourceType};
use crate::biome::soil_fertility;
use crate::rivers::{
    coastal_cells, lemma_river_fields, refine_rivers, river_edge, river_edges, river_flow_rates,
    river_network,
};
use crate::sea_level::percentile_elevation;
use crate::tectonics::{continent_centers, sample_ok, tectonic_stage};
use crate::terrain::{BiomeType, GeologyType, StrategicFeature};

verus! {

/// The finished record of one cell. Continuous fields are fixed-point
/// thousandths.
#[derive(Clone, Copy, Debug)]
pub struct WorldTile {
    pub hex_coord: HexCoord,
    /// Elevation, `-1000..=1000`.
    pub elevation: i64,
    pub biome: BiomeType,
    pub has_river: bool,
    /// River strength, `100..=1000` on a river, zero elsewhere.
    pub river_flow: i64,
    /// Which of the six edges carry a river, in direction order.
    pub river_edges: [bool; 6],
    pub is_coastal: bool,
    pub resource: ResourceType,
    pub temperature: i64,
    pub precipitation: i64,
    pub drainage: i64,
    pub geology: GeologyType,
    pub soil_fertility: i64,
    pub strategic_feature: StrategicFeature,
    pub defensibility: i64,
    pub trade_value: i64,
    pub flood_risk: i64,
    pub naval_access: i64,
}

/// Noise samples of one run, one per cell in grid order for each layer, each
/// in `-1000..=1000`: plate boundaries, mountain ridges, hills, fine detail,
/// temperature, precipitation, and the resource gate.
#[derive(Debug)]
pub struct NoiseSamples {
    pub plate: Vec<i64>,
    pub mountain: Vec<i64>,
    pub hill: Vec<i64>,
    pub detail: Vec<i64>,
    pub temperature: Vec<i64>,
    pub precipitation: Vec<i64>,
    pub resource: Vec<i64>,
}

pub open spec fn layer_fits(v: Seq<i64>, n: int) -> bool {
    v.len() == n && forall|i: int| 0 <= i < v.len() ==> sample_ok(#[trigger] v[i])
}

fn check_layer(v: &Vec<i64>, n: usize) -> (ok: bool)
    ensures
        ok == layer_fits(v@, n as int),
{
    if v.len() != n {
        return false;
    }
    let mut i: usize = 0;
    while i < v.len()
        invariant
            i <= v@.len(),
            forall|k: int| 0 <= k < i ==> sample_ok(#[trigger] v@[k]),
        decreases v@.len() - i,
    {
        if v[i] < -1000 || v[i] > 1000 {
            return false;
        }
        i = i + 1;
    }
    true
}

impl NoiseSamples {
    /// Every layer holds one in-range sample per cell of a grid with `n` cells.
    pub open spec fn fits(&self, n: int) -> bool {
        &&& layer_fits(self.plate@, n)
        &&& layer_fits(self.mountain@, n)
        &&& layer_fits(self.hill@, n)
        &&& layer_fits(self.detail@, n)
        &&& layer_fits(self.temperature@, n)
        &&& layer_fits(self.precipitation@, n)
        &&& layer_fits(self.resource@, n)
    }

    /// Whether every layer holds one in-range sample per cell of `n` cells.
    pub fn check(&self, n: usize) -> (ok: bool)
        ensures
            ok == self.fits(n as int),
    {
        check_layer(&self.plate, n) && check_layer(&self.mountain, n) && check_layer(&self.hill, n)
            && check_layer(&self.detail, n) && check_layer(&self.temperature, n) && check_layer(
            &self.precipitation,
            n,
        ) && check_layer(&self.resource, n)
    }
}

/// The properties every finished world has: one record per coordinate in the
/// radius; ocean exactly at or below the sea level; river flow
/// positive exactly on rivers; no river edge on a cell without a river; and every
/// continuous field within its range.
pub open spec fn finished_world(radius: int, tiles: Seq<WorldTile>, sea: int) -> bool {
    &&& tiles.len() == 3 * radius * radius + 3 * radius + 1
    &&& forall|i: int| 0 <= i < tiles.len() ==> in_radius(radius, (#[trigger] tiles[i]).hex_coord)
    &&& forall|i: int, j: int|
        0 <= i < tiles.len() && 0 <= j < tiles.len() && (#[trigger] tiles[i]).hex_coord == (
        #[trigger] tiles[j]).hex_coord ==> i == j
    &&& forall|c: HexCoord|
        in_radius(radius, c) ==> exists|i: int| 0 <= i < tiles.len() && #[trigger] tiles[i].hex_coord == c
    &&& forall|i: int|
        0 <= i < tiles.len() ==> ((#[trigger] tiles[i]).elevation <= sea <==> tiles[i].biome
            == BiomeType::Ocean)
    &&& forall|i: int|
        0 <= i < tiles.len() && (#[trigger] tiles[i]).has_river ==> 0 < tiles[i].river_flow <= 1000
    &&& forall|i: int|
        0 <= i < tiles.len() && !(#[trigger] tiles[i]).has_river ==> tiles[i].river_flow == 0
    &&& forall|i: int, k: int|
        0 <= i < tiles.len() && 0 <= k < 6 && !tiles[i].has_river ==> !#[trigger] tiles[i].river_edges@[k]
    &&& forall|i: int|
        0 <= i < tiles.len() ==> -1000 <= (#[trigger] tiles[i]).elevation <= 1000 && 0
            <= tiles[i].temperature <= 1000 && 0 <= tiles[i].precipitation <= 1000 && 0
            <= tiles[i].drainage <= 1000 && 0 <= tiles[i].soil_fertility <= 1000
}

proof fn lemma_greedy_from_ranked(g: HexGrid, ranked: Seq<(i64, usize)>, k: int)
    requires
        0 <= k <= ranked.len(),
    ensures
        forall|m: int|
            0 <= m < greedy_lakes(g, ranked, k).len() ==> exists|q: int|
                0 <= q < k && ranked[q].1 == #[trigger] greedy_lakes(g, ranked, k)[m],
    decreases k,
{
    if k > 0 {
        lemma_greedy_from_ranked(g, ranked, k - 1);
        let prev = greedy_lakes(g, ranked, k - 1);
        assert forall|m: int|
            0 <= m < greedy_lakes(g, ranked, k).len() implies exists|q: int|
            0 <= q < k && ranked[q].1 == #[trigger] greedy_lakes(g, ranked, k)[m] by {
            if m < prev.len() {
                assert(greedy_lakes(g, ranked, k)[m] == prev[m]);
            } else {
                assert(ranked[k - 1].1 == greedy_lakes(g, ranked, k)[m]);
            }
        }
    }
}

/// Geology and eroded elevation of every cell.
fn shape_terrain(
    grid: &HexGrid,
    config: &WorldGenConfig,
    samples: &NoiseSamples,
    draws: &RandomDraws,
) -> (r: (Vec<GeologyType>, Vec<i64>))
    requires
        grid.wf(),
        1 <= grid.spec_radius() <= MAX_RADIUS,
        config.valid(),
        samples.fits(grid.cells().len() as int),
        draws.fits(*config, grid.spec_radius()),
    ensures
        r.0@ == terrain_geology(*grid, *config, *samples, *draws),
        r.1@ == terrain_elevation(*grid, *config, *samples, *draws),
        r.0@.len() == grid.cells().len(),
        r.1@.len() == grid.cells().len(),
        unit_field(r.1@),
{
    let seeds = continent_centers(config, grid.radius(), draws);
    let (_, geology) = tectonic_stage(grid, config, &seeds, &samples.plate);
    assert(geology@ =~= terrain_geology(*grid, *config, *samples, *draws));
    let raw = base_elevation(&geology, &samples.mountain, &samples.hill, &samples.detail);
    assert(raw@ =~= terrain_raw(*grid, *config, *samples, *draws));
    let e = erode(grid, &raw);
    assert(e@ =~= terrain_elevation(*grid, *config, *samples, *draws));
    (geology, e)
}

/// Temperature and precipitation (after rain shadows) of every cell.
fn climate_fields(
    grid: &HexGrid,
    config: &WorldGenConfig,
    samples: &NoiseSamples,
    e: &Vec<i64>,
    sea: i64,
) -> (r: (Vec<i64>, Vec<i64>))
    requires
        grid.wf(),
        config.valid(),
        samples.fits(grid.cells().len() as int),
        e@.len() == grid.cells().len(),
        unit_field(e@),
        -2000 <= sea <= 2000,
    ensures
        r.0@ == temperature_view(*grid, *config, *samples, e@, sea as int),
        r.1@ == precipitation_view(*grid, *config, *samples, e@, sea as int),
        r.0@.len() == e@.len(),
        r.1@.len() == e@.len(),
        forall|i: int| 0 <= i < e@.len() ==> 0 <= #[trigger] r.0@[i] <= 1000,
        forall|i: int| 0 <= i < e@.len() ==> 0 <= #[trigger] r.1@[i] <= 1000,
{
    let ocean = ocean_distances(grid, e, sea);
    proof {
        assert forall|i: int| 0 <= i < e@.len() implies ocean@[i] == ocean_view(
            *grid,
            e@,
            sea as int,
        )[i] by {
            let d = choose|d: int| is_ocean_distance(*grid, e@, sea as int, i, d);
            assert(is_ocean_distance(*grid, e@, sea as int, i, ocean@[i] as int));
            lemma_ocean_distance_unique(*grid, e@, sea as int, i, d, ocean@[i] as int);
        }
        assert(ocean@ =~= ocean_view(*grid, e@, sea as int));
    }
    let temp = temperatures(grid, e, sea, &ocean, &samples.temperature, config.global_temperature);
    let wet = precipitations(
        grid,
        e,
        sea,
        &ocean,
        &samples.precipitation,
        config.climate_extremeness,
        config.rainfall_multiplier,
    );
    let precip = apply_rain_shadows(grid, e, sea, &wet);
    assert(temp@ =~= temperature_view(*grid, *config, *samples, e@, sea as int));
    assert(precip@ =~= precipitation_view(*grid, *config, *samples, e@, sea as int));
    (temp, precip)
}

/// The biomes with lakes placed at the best-spaced convergent depressions.
fn place_lake_biomes(
    grid: &HexGrid,
    e: &Vec<i64>,
    sea: i64,
    flow: &Vec<Option<(usize, usize)>>,
    biome: Vec<BiomeType>,
) -> (r: Vec<BiomeType>)
    requires
        grid.wf(),
        e@.len() == grid.cells().len(),
        flow@.len() == grid.cells().len(),
        biome@.len() == grid.cells().len(),
        unit_field(e@),
        -2000 <= sea <= 2000,
        forall|c: int|
            0 <= c < e@.len() ==> (e@[c] <= sea <==> #[trigger] biome@[c] == BiomeType::Ocean),
        flow@ == flow_view(*grid, e@, sea as int),
        grid.cells().len() <= 3_003_001,
    ensures
        r@ == with_lakes(biome@, lakes_view(*grid, e@, sea as int)),
        r@.len() == e@.len(),
        forall|c: int| 0 <= c < e@.len() ==> (e@[c] <= sea <==> #[trigger] r@[c] == BiomeType::Ocean),
{
    let ranked = rank_lake_candidates(grid, e, sea, flow);
    let lakes = place_lakes(grid, &ranked);
    proof {
        lemma_greedy_from_ranked(*grid, ranked@, lake_window(ranked@.len() as int));
        assert forall|m: int| 0 <= m < lakes@.len() implies (#[trigger] lakes@[m]) < e@.len()
            && e@[lakes@[m] as int] > sea by {
            let q = choose|q: int|
                0 <= q < lake_window(ranked@.len() as int) && ranked@[q].1 == lakes@[m];
            assert(lake_candidate(*grid, e@, sea as int, flow@, ranked@[q].1 as int));
        }
        assert(ranking(*grid, e@, sea as int, flow@, ranked@));
        assert(exists|r: Seq<(i64, usize)>| ranking(*grid, e@, sea as int, flow_view(*grid, e@, sea as int), r));
        let r0 = ranked_view(*grid, e@, sea as int);
        lemma_ranking_unique(*grid, e@, sea as int, flow@, ranked@, r0);
        assert(lakes@ == lakes_view(*grid, e@, sea as int));
    }
    let ghost orig = biome@;
    let mut biome = biome;
    let mut l: usize = 0;
    while l < lakes.len()
        invariant
            biome@.len() == e@.len(),
            orig.len() == e@.len(),
            l <= lakes@.len(),
            forall|m: int| 0 <= m < lakes@.len() ==> (#[trigger] lakes@[m]) < e@.len() && e@[lakes@[m] as int] > sea,
            forall|c: int|
                0 <= c < e@.len() ==> (e@[c] <= sea <==> #[trigger] biome@[c] == BiomeType::Ocean),
            biome@ == with_lakes(orig, lakes@.take(l as int)),
            e@.len() <= 3_003_001,
        decreases lakes@.len() - l,
    {
        let ghost prev = biome@;
        let x = lakes[l];
        biome.set(x, BiomeType::Lake);
        proof {
            let s0 = lakes@.take(l as int);
            let t = lakes@.take(l + 1);
            assert(t =~= s0.push(x));
            assert forall|c: int| 0 <= c < orig.len() implies #[trigger] biome@[c] == with_lakes(orig, t)[c] by {
                let y = c as usize;
                assert(t.contains(y) <==> (s0.contains(y) || y == x)) by {
                    if s0.contains(y) {
                        let q = choose|q: int| 0 <= q < s0.len() && s0[q] == y;
                        assert(t[q] == y);
                    }
                    if y == x {
                        assert(t[l as int] == y);
                    }
                    if t.contains(y) && y != x {
                        let q = choose|q: int| 0 <= q < t.len() && t[q] == y;
                        assert(q < l);
                        assert(s0[q] == y);
                    }
                }
                assert(prev[c] == with_lakes(orig, s0)[c]);
                if c == x as int {
                    assert(biome@[c] == BiomeType::Lake);
                } else {
                    assert(biome@[c] == prev[c]);
                }
            }
            assert(biome@ =~= with_lakes(orig, t));
        }
        l = l + 1;
    }
    assert(lakes@.take(l as int) =~= lakes@);
    biome
}

/// The per-cell fields of the surface, apart from geology and elevation.
struct Surface {
    biome: Vec<BiomeType>,
    rivers: Vec<bool>,
    rates: Vec<i64>,
    edges: Vec<[bool; 6]>,
    coastal: Vec<bool>,
    temp: Vec<i64>,
    precip: Vec<i64>,
    drain: Vec<i64>,
}

impl Surface {
    spec fn matches(&self, grid: HexGrid, sv: SurfaceView) -> bool {
        &&& self.drain@ == sv.drainage
        &&& self.coastal@ == sv.coastal
        &&& self.temp@ == sv.temperature
        &&& self.precip@ == sv.precipitation
        &&& self.biome@ == sv.biome
        &&& self.rivers@ == sv.rivers
        &&& self.rates@ == sv.rates
        &&& forall|c: int, k: int|
            0 <= c < self.edges@.len() && 0 <= k < 6 ==> #[trigger] self.edges@[c]@[k] == river_edge(
                grid,
                sv.flow,
                sv.rivers,
                c,
                k,
            )
    }

    spec fn fits(&self, grid: HexGrid, e: Seq<i64>, sea: int) -> bool {
        let n = grid.cells().len();
        &&& self.biome@.len() == n
        &&& self.rivers@.len() == n
        &&& self.rates@.len() == n
        &&& self.edges@.len() == n
        &&& self.coastal@.len() == n
        &&& self.temp@.len() == n
        &&& self.precip@.len() == n
        &&& self.drain@.len() == n
        &&& forall|c: int|
            0 <= c < n ==> (e[c] <= sea <==> #[trigger] self.biome@[c] == BiomeType::Ocean)
        &&& forall|c: int| 0 <= c < n && #[trigger] self.rivers@[c] ==> 0 < self.rates@[c] <= 1000
        &&& forall|c: int| 0 <= c < n && !#[trigger] self.rivers@[c] ==> self.rates@[c] == 0
        &&& forall|c: int, k: int|
            0 <= c < n && 0 <= k < 6 && !self.rivers@[c] ==> !#[trigger] self.edges@[c]@[k]
        &&& forall|c: int|
            0 <= c < n ==> 0 <= #[trigger] self.temp@[c] <= 1000 && 0 <= self.precip@[c] <= 1000 && 0
                <= self.drain@[c] <= 1000
    }
}

/// Hydrology, coasts, climate, biomes, refined rivers and lakes.
fn surface_fields(
    grid: &HexGrid,
    config: &WorldGenConfig,
    samples: &NoiseSamples,
    e: &Vec<i64>,
    sea: i64,
    geology: &Vec<GeologyType>,
) -> (s: Surface)
    requires
        grid.wf(),
        grid.cells().len() <= 3_003_001,
        config.valid(),
        samples.fits(grid.cells().len() as int),
        e@.len() == grid.cells().len(),
        geology@.len() == grid.cells().len(),
        unit_field(e@),
        -2000 <= sea <= 2000,
    ensures
        s.fits(*grid, e@, sea as int),
        s.matches(*grid, surface_view(*grid, *config, *samples, geology@, e@, sea as int)),
{
    let n = grid.len();
    let drain = drainage(grid, e, geology);
    let flow = flow_directions(grid, e, sea);
    assert(flow@ =~= flow_view(*grid, e@, sea as int));
    // Hydrology runs before the climate stage, so it reads the precipitation
    // each record starts with: zero.
    let mut dry: Vec<i64> = Vec::new();
    let mut i: usize = 0;
    while i < n
        invariant
            i <= n,
            dry@.len() == i,
            forall|k: int| 0 <= k < i ==> #[trigger] dry@[k] == 0,
        decreases n - i,
    {
        dry.push(0);
        i = i + 1;
    }
    let acc = flow_accumulation(grid, e, sea, &flow, &dry);
    proof {
        assert(dry@ =~= zeros(n as nat));
        let a0 = acc_view(*grid, e@, sea as int);
        assert(exists|a: Seq<i64>| balanced(*grid, e@, sea as int, flow_view(*grid, e@, sea as int), zeros(n as nat), a));
        lemma_balanced_unique(*grid, e@, sea as int, flow@, dry@, acc@, a0);
    }
    let river = river_network(e, sea, &dry, &acc);
    let coastal = coastal_cells(grid, e, sea);
    let (temp, precip) = climate_fields(grid, config, samples, e, sea);
    let biome = assign_biomes(e, sea, &temp, &precip, &drain, &coastal);
    let rivers = refine_rivers(&river, &acc, &biome);
    let rates = river_flow_rates(&acc, &rivers);
    let edges = river_edges(grid, &flow, &rivers);
    let biome = place_lake_biomes(grid, e, sea, &flow, biome);
    proof {
        assert forall|c: int, k: int|
            0 <= c < n && 0 <= k < 6 && !rivers@[c] implies !#[trigger] edges@[c]@[k] by {
            lemma_river_fields(*grid, flow@, rivers@, acc@, rates@, edges@, c, k);
        }
        let sv = surface_view(*grid, *config, *samples, geology@, e@, sea as int);
        assert(drain@ =~= sv.drainage);
        assert(coastal@ =~= sv.coastal);
        assert(rivers@ =~= sv.rivers);
        assert(rates@ =~= sv.rates);
        assert(biome@ =~= sv.biome);
        assert(flow@ == sv.flow);
    }
    Surface { biome, rivers, rates, edges, coastal, temp, precip, drain }
}

/// The finished records, in grid order.
fn assemble(
    grid: &HexGrid,
    e: &Vec<i64>,
    geology: &Vec<GeologyType>,
    s: &Surface,
    resource_samples: &Vec<i64>,
) -> (tiles: Vec<WorldTile>)
    requires
        grid.wf(),
        e@.len() == grid.cells().len(),
        geology@.len() == grid.cells().len(),
        resource_samples@.len() == grid.cells().len(),
        s.biome@.len() == grid.cells().len(),
        s.rivers@.len() == grid.cells().len(),
        s.rates@.len() == grid.cells().len(),
        s.edges@.len() == grid.cells().len(),
        s.coastal@.len() == grid.cells().len(),
        s.temp@.len() == grid.cells().len(),
        s.precip@.len() == grid.cells().len(),
        s.drain@.len() == grid.cells().len(),
    ensures
        tiles@.len() == grid.cells().len(),
        forall|k: int|
            0 <= k < tiles@.len() ==> (#[trigger] tiles@[k]).hex_coord == grid.cells()[k]
                && tiles@[k].elevation == e@[k] && tiles@[k].biome == s.biome@[k]
                && tiles@[k].has_river == s.rivers@[k] && tiles@[k].river_flow == s.rates@[k]
                && tiles@[k].river_edges == s.edges@[k] && tiles@[k].temperature == s.temp@[k]
                && tiles@[k].precipitation == s.precip@[k] && tiles@[k].drainage == s.drain@[k]
                && 0 <= tiles@[k].soil_fertility <= 1000 && tiles@[k].is_coastal == s.coastal@[k]
                && tiles@[k].geology == geology@[k] && tiles@[k].resource == gated_pick(
                generator_resources(s.biome@[k]),
                grid.cells()[k],
                resource_samples@[k] as int,
            ) && tiles@[k].soil_fertility == soil_fertility(s.biome@[k], s.rivers@[k], geology@[k])
                && tiles@[k].strategic_feature == StrategicFeature::NoFeature
                && tiles@[k].defensibility == 0 && tiles@[k].trade_value == 0
                && tiles@[k].flood_risk == 0 && tiles@[k].naval_access == 0,
{
    proof {
        grid.lemma_wf();
    }
    let n = grid.len();
    let mut tiles: Vec<WorldTile> = Vec::new();
    let mut i: usize = 0;
    while i < n
        invariant
            grid.wf(),
            n == grid.cells().len(),
            0 <= grid.spec_radius() <= 1000,
            forall|k: int| 0 <= k < n ==> in_radius(grid.spec_radius(), #[trigger] grid.cells()[k]),
            e@.len() == n,
            geology@.len() == n,
            resource_samples@.len() == n,
            s.biome@.len() == n,
            s.rivers@.len() == n,
            s.rates@.len() == n,
            s.edges@.len() == n,
            s.coastal@.len() == n,
            s.temp@.len() == n,
            s.precip@.len() == n,
            s.drain@.len() == n,
            i <= n,
            tiles@.len() == i,
            forall|k: int|
                0 <= k < i ==> (#[trigger] tiles@[k]).hex_coord == grid.cells()[k]
                    && tiles@[k].elevation == e@[k] && tiles@[k].biome == s.biome@[k]
                    && tiles@[k].has_river == s.rivers@[k] && tiles@[k].river_flow == s.rates@[k]
                    && tiles@[k].river_edges == s.edges@[k] && tiles@[k].temperature == s.temp@[k]
                    && tiles@[k].precipitation == s.precip@[k] && tiles@[k].drainage == s.drain@[k]
                    && 0 <= tiles@[k].soil_fertility <= 1000 && tiles@[k].is_coastal == s.coastal@[k]
                && tiles@[k].geology == geology@[k] && tiles@[k].resource == gated_pick(
                generator_resources(s.biome@[k]),
                grid.cells()[k],
                resource_samples@[k] as int,
            ) && tiles@[k].soil_fertility == soil_fertility(s.biome@[k], s.rivers@[k], geology@[k])
                && tiles@[k].strategic_feature == StrategicFeature::NoFeature
                && tiles@[k].defensibility == 0 && tiles@[k].trade_value == 0
                && tiles@[k].flood_risk == 0 && tiles@[k].naval_access == 0,
        decreases n - i,
    {
        let c = grid.coord(i);
        let t = WorldTile {
            hex_coord: c,
            elevation: e[i],
            biome: s.biome[i],
            has_river: s.rivers[i],
            river_flow: s.rates[i],
            river_edges: s.edges[i],
            is_coastal: s.coastal[i],
            resource: biome_resource(c, s.biome[i], resource_samples[i]),
            temperature: s.temp[i],
            precipitation: s.precip[i],
            drainage: s.drain[i],
            geology: geology[i],
            soil_fertility: fertility_of(s.biome[i], s.rivers[i], geology[i]),
            strategic_feature: StrategicFeature::NoFeature,
            defensibility: 0,
            trade_value: 0,
            flood_risk: 0,
            naval_access: 0,
        };
        let ghost old_t = tiles@;
        tiles.push(t);
        assert(forall|k: int| 0 <= k < i ==> tiles@[k] == old_t[k]);
        i = i + 1;
    }
    tiles
}

proof fn lemma_finished(
    grid: HexGrid,
    e: Seq<i64>,
    sea: int,
    s: Surface,
    tiles: Seq<WorldTile>,
)
    requires
        grid.wf(),
        e.len() == grid.cells().len(),
        unit_field(e),
        s.fits(grid, e, sea),
        tiles.len() == grid.cells().len(),
        forall|k: int|
            0 <= k < tiles.len() ==> (#[trigger] tiles[k]).hex_coord == grid.cells()[k]
                && tiles[k].elevation == e[k] && tiles[k].biome == s.biome@[k] && tiles[k].has_river
                == s.rivers@[k] && tiles[k].river_flow == s.rates@[k] && tiles[k].river_edges
                == s.edges@[k] && tiles[k].temperature == s.temp@[k] && tiles[k].precipitation
                == s.precip@[k] && tiles[k].drainage == s.drain@[k] && 0 <= tiles[k].soil_fertility
                <= 1000,
    ensures
        finished_world(grid.spec_radius(), tiles, sea),
{
    let g = grid;
    g.lemma_one_cell_per_coordinate(HexCoord { q: 0, r: 0 });
    assert forall|c: HexCoord| in_radius(g.spec_radius(), c) implies exists|i: int|
        0 <= i < tiles.len() && #[trigger] tiles[i].hex_coord == c by {
        g.lemma_one_cell_per_coordinate(c);
        let i = choose|i: int| 0 <= i < g.cells().len() && g.cells()[i] == c;
        assert(tiles[i].hex_coord == c);
    }
    assert forall|i: int, j: int|
        0 <= i < tiles.len() && 0 <= j < tiles.len() && (#[trigger] tiles[i]).hex_coord == (
        #[trigger] tiles[j]).hex_coord implies i == j by {
        g.lemma_one_cell_per_coordinate(tiles[i].hex_coord);
        assert(g.cells()[i] == g.cells()[j]);
    }
    assert forall|i: int, k: int|
        0 <= i < tiles.len() && 0 <= k < 6 && !tiles[i].has_river implies !#[trigger] tiles[i].river_edges@[k] by {
        assert(!s.edges@[i]@[k]);
    }
}

/// Runs every stage in order on explicit noise samples and random draws.
/// Refuses a radius outside `1..=MAX_RADIUS`, a configuration out of range,
/// samples that do not fit the grid, and draws that do not fit the
/// configuration, in that order; otherwise returns the finished cells and the
/// sea level.
pub fn generate_world(
    grid: &HexGrid,
    config: &WorldGenConfig,
    samples: &NoiseSamples,
    draws: &RandomDraws,
) -> (r: Result<(Vec<WorldTile>, i64), WorldGenError>)
    requires
        grid.wf(),
    ensures
        grid.spec_radius() < 1 <==> r == Err::<(Vec<WorldTile>, i64), WorldGenError>(
            WorldGenError::RadiusOutOfRange,
        ),
        (1 <= grid.spec_radius() && !config.valid()) <==> r == Err::<
            (Vec<WorldTile>, i64),
            WorldGenError,
        >(WorldGenError::ConfigOutOfRange),
        (1 <= grid.spec_radius() && config.valid() && !samples.fits(grid.cells().len() as int))
            <==> r == Err::<(Vec<WorldTile>, i64), WorldGenError>(WorldGenError::SamplesMismatch),
        (1 <= grid.spec_radius() && config.valid() && samples.fits(grid.cells().len() as int)
            && !draws.fits(*config, grid.spec_radius())) <==> r == Err::<
            (Vec<WorldTile>, i64),
            WorldGenError,
        >(WorldGenError::DrawsMismatch),
        r is Ok <==> (1 <= grid.spec_radius() && config.valid() && samples.fits(
            grid.cells().len() as int,
        ) && draws.fits(*config, grid.spec_radius())),
        r matches Ok((tiles, sea)) ==> generated(
            *grid,
            *config,
            *samples,
            *draws,
            tiles@,
            sea as int,
        ) && finished_world(grid.spec_radius(), tiles@, sea as int),
{
    proof {
        grid.lemma_wf();
    }
    let radius = grid.radius();
    if radius < 1 {
        return Err(WorldGenError::RadiusOutOfRange);
    }
    if config.validate().is_err() {
        return Err(WorldGenError::ConfigOutOfRange);
    }
    let n = grid.len();
    proof {
        lemma_cell_count(radius as int);
        assert(n <= 3 * 1000 * 1000 + 3 * 1000 + 1) by (nonlinear_arith)
            requires
                n == 3 * radius * radius + 3 * radius + 1,
                1 <= radius <= 1000,
        ;
    }
    if !samples.check(n) {
        return Err(WorldGenError::SamplesMismatch);
    }
    if !draws.check(config, radius) {
        return Err(WorldGenError::DrawsMismatch);
    }
    let (geology, e) = shape_terrain(grid, config, samples, draws);
    let base = percentile_elevation(&e, config.target_land_percentage);
    proof {
        let k = crate::sea_level::percentile_index(n as int, config.target_land_percentage as int);
        let v = base_sea_level(e@, config.target_land_percentage as int);
        assert(exists|w: int| crate::sea_level::order_statistic(e@, k, w));
        crate::sea_level::lemma_order_statistic_unique(e@, k, base as int, v);
    }
    let sea = base + draws.sea_level_shift;
    let surface = surface_fields(grid, config, samples, &e, sea, &geology);
    let tiles = assemble(grid, &e, &geology, &surface, &samples.resource);
    proof {
        lemma_finished(*grid, e@, sea as int, surface, tiles@);
        let sv = surface_view(*grid, *config, *samples, geology@, e@, sea as int);
        assert forall|i: int| 0 <= i < tiles@.len() implies tile_is(
            *grid,
            *samples,
            geology@,
            e@,
            sv,
            i,
            #[trigger] tiles@[i],
        ) by {
            assert forall|k: int| 0 <= k < 6 implies #[trigger] tiles@[i].river_edges@[k] == river_edge(
                *grid,
                sv.flow,
                sv.rivers,
                i,
                k,
            ) by {
                assert(surface.edges@[i]@[k] == river_edge(*grid, sv.flow, sv.rivers, i, k));
            }
        }
    }
    Ok((tiles, sea))
}

/// The generator: a configuration and a radius, and after a run the finished
/// cells and the calibrated sea level.
pub struct WorldGenerator {
    pub map_radius: i32,
    pub tiles: Vec<WorldTile>,
    pub sea_level: i64,
    pub config: WorldGenConfig,
}

impl WorldGenerator {
    /// A generator with the default configuration.
    pub fn new(map_radius: i32) -> (g: WorldGenerator)
        ensures
            g.map_radius == map_radius,
            g.config == crate::config::default_config(),
            g.tiles@.len() == 0,
            g.sea_level == 0,
    {
        WorldGenerator::with_config(map_radius, WorldGenConfig::default())
    }

    /// A generator with the given configuration.
    pub fn with_config(map_radius: i32, config: WorldGenConfig) -> (g: WorldGenerator)
        ensures
            g.map_radius == map_radius,
            g.config == config,
            g.tiles@.len() == 0,
            g.sea_level == 0,
    {
        WorldGenerator { map_radius, tiles: Vec::new(), sea_level: 0, config }
    }

    /// Generates the world from noise samples and a seed for the random draws.
    /// On success the cells and sea level are kept and a copy of the cells is
    /// returned; on failure nothing changes.
    pub fn generate(&mut self, samples: &NoiseSamples, seed: u64) -> (r: Result<
        Vec<WorldTile>,
        WorldGenError,
    >)
        ensures
            final(self).map_radius == old(self).map_radius,
            final(self).config == old(self).config,
            !(1 <= old(self).map_radius <= MAX_RADIUS) ==> r == Err::<Vec<WorldTile>, WorldGenError>(
                WorldGenError::RadiusOutOfRange,
            ),
            (1 <= old(self).map_radius <= MAX_RADIUS && !old(self).config.valid()) ==> r == Err::<
                Vec<WorldTile>,
                WorldGenError,
            >(WorldGenError::ConfigOutOfRange),
            (1 <= old(self).map_radius <= MAX_RADIUS && old(self).config.valid() && !samples.fits(
                cell_count(old(self).map_radius as int),
            )) ==> r == Err::<Vec<WorldTile>, WorldGenError>(WorldGenError::SamplesMismatch),
            r is Ok <==> (1 <= old(self).map_radius <= MAX_RADIUS && old(self).config.valid()
                && samples.fits(cell_count(old(self).map_radius as int))),
            r is Err ==> final(self).tiles@ == old(self).tiles@ && final(self).sea_level == old(
                self,
            ).sea_level,
            r matches Ok(tiles) ==> tiles@ == final(self).tiles@ && finished_world(
                old(self).map_radius as int,
                tiles@,
                final(self).sea_level as int,
            ),
            r is Ok ==> exists|g: HexGrid, d: RandomDraws|
                g.wf() && g.spec_radius() == old(self).map_radius && d.fits(
                    old(self).config,
                    old(self).map_radius as int,
                ) && generated(
                    g,
                    old(self).config,
                    *samples,
                    d,
                    final(self).tiles@,
                    final(self).sea_level as int,
                ),
    {
        let radius = self.map_radius;
        if radius < 1 || radius > MAX_RADIUS {
            return Err(WorldGenError::RadiusOutOfRange);
        }
        if self.config.validate().is_err() {
            return Err(WorldGenError::ConfigOutOfRange);
        }
        let draws = RandomDraws::from_seed(&self.config, radius, seed);
        let grid = HexGrid::new(radius);
        proof {
            grid.lemma_wf();
            lemma_cell_count(radius as int);
        }
        match generate_world(&grid, &self.config, samples, &draws) {
            Ok((tiles, sea)) => {
                let mut copy: Vec<WorldTile> = Vec::new();
                let mut i: usize = 0;
                while i < tiles.len()
                    invariant
                        i <= tiles@.len(),
                        copy@ == tiles@.take(i as int),
                    decreases tiles@.len() - i,
                {
                    copy.push(tiles[i]);
                    assert(copy@ =~= tiles@.take(i + 1));
                    i = i + 1;
                }
                assert(copy@ =~= tiles@);
                self.tiles = tiles;
                self.sea_level = sea;
                proof {
                    assert(grid.wf() && draws.fits(self.config, radius as int) && generated(
                        grid,
                        self.config,
                        *samples,
                        draws,
                        self.tiles@,
                        self.sea_level as int,
                    ));
                }
                Ok(copy)
            },
            Err(err) => Err(err),
        }
    }
}

/// Counts by which a caller can recognise a degenerate world (no rivers, no
/// land) without it being an error.
#[derive(Clone, Copy, Debug, PartialEq, Eq, Structural)]
pub struct WorldSummary {
    pub tiles: usize,
    pub land: usize,
    pub river: usize,
    pub lakes: usize,
}

/// Number of the first `k` tiles above the sea level.
pub open spec fn count_above(tiles: Seq<WorldTile>, sea: int, k: int) -> int
    decreases k,
{
    if k <= 0 {
        0
    } else {
        count_above(tiles, sea, k - 1) + if tiles[k - 1].elevation > sea {
            1int
        } else {
            0
        }
    }
}

/// Number of the first `k` tiles that carry a river.
pub open spec fn count_rivers(tiles: Seq<WorldTile>, k: int) -> int
    decreases k,
{
    if k <= 0 {
        0
    } else {
        count_rivers(tiles, k - 1) + if tiles[k - 1].has_river {
            1int
        } else {
            0
        }
    }
}

/// Number of the first `k` tiles that are lakes.
pub open spec fn count_lakes(tiles: Seq<WorldTile>, k: int) -> int
    decreases k,
{
    if k <= 0 {
        0
    } else {
        count_lakes(tiles, k - 1) + if tiles[k - 1].biome == BiomeType::Lake {
            1int
        } else {
            0
        }
    }
}

/// Counts the tiles, the land tiles (above `sea`), the river tiles and the lakes.
pub fn summarize(tiles: &Vec<WorldTile>, sea: i64) -> (s: WorldSummary)
    ensures
        s.tiles == tiles@.len(),
        s.land == count_above(tiles@, sea as int, tiles@.len() as int),
        s.river == count_rivers(tiles@, tiles@.len() as int),
        s.lakes == count_lakes(tiles@, tiles@.len() as int),
{
    let mut land: usize = 0;
    let mut river: usize = 0;
    let mut lakes: usize = 0;
    let mut i: usize = 0;
    while i < tiles.len()
        invariant
            i <= tiles@.len(),
            land == count_above(tiles@, sea as int, i as int),
            river == count_rivers(tiles@, i as int),
            lakes == count_lakes(tiles@, i as int),
            land <= i,
            river <= i,
            lakes <= i,
        decreases tiles@.len() - i,
    {
        let t = tiles[i];
        if t.elevation > sea {
            land = land + 1;
        }
        if t.has_river {
            river = river + 1;
        }
        if t.biome == BiomeType::Lake {
            lakes = lakes + 1;
        }
        i = i + 1;
    }
    WorldSummary { tiles: tiles.len(), land, river, lakes }
}

impl WorldGenerator {
    /// Counts over the cells of the last successful run.
    pub fn summary(&self) -> (s: WorldSummary)
        ensures
            s.tiles == self.tiles@.len(),
            s.land == count_above(self.tiles@, self.sea_level as int, self.tiles@.len() as int),
            s.river == count_rivers(self.tiles@, self.tiles@.len() as int),
            s.lakes == count_lakes(self.tiles@, self.tiles@.len() as int),
    {
        summarize(&self.tiles, self.sea_level)
    }
}

} // verus!

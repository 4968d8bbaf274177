//! The generated world as a function of its inputs: each field that the
//! pipeline computes, stated over the grid, the configuration, the noise
//! samples and the random draws.
use vstd::prelude::*;
use crate::accumulation::balanced;
use crate::biome::{cell_biome, soil_fertility};
use crate::climate::{is_ocean_distance, precipitation_of, rain_shadow, temperature_of};
use crate::config::WorldGenConfig;
use crate::elevation::{eroded, layered_elevation};
use crate::fixed::spec_fmul;
use crate::grid::HexGrid;
use crate::hydrology::{cell_drainage, flow_entry};
use crate::lakes::{greedy_lakes, lake_window, ranking};
use crate::random::RandomDraws;
use crate::resources::{gated_pick, generator_resources};
use crate::rivers::{biome_river_threshold, coastal, max_acc, river_edge, river_flow_of, river_threshold};
use crate::sea_level::{order_statistic, percentile_index};
use crate::tectonics::{cell_geology, continent_seeds, nearest_distance};
use crate::terrain::{BiomeType, GeologyType, StrategicFeature};
use crate::world::{NoiseSamples, WorldTile};

verus! {

/// Geology of every cell.
pub open spec fn terrain_geology(
    g: HexGrid,
    config: WorldGenConfig,
    samples: NoiseSamples,
    draws: RandomDraws,
) -> Seq<GeologyType> {
    let seeds = continent_seeds(config, g.spec_radius(), draws);
    Seq::new(
        g.cells().len(),
        |i: int| cell_geology(config, nearest_distance(g.cells()[i], seeds), samples.plate@[i] as int),
    )
}

/// Elevation of every cell before erosion.
pub open spec fn terrain_raw(
    g: HexGrid,
    config: WorldGenConfig,
    samples: NoiseSamples,
    draws: RandomDraws,
) -> Seq<i64> {
    let geo = terrain_geology(g, config, samples, draws);
    Seq::new(
        g.cells().len(),
        |i: int|
            layered_elevation(
                geo[i],
                samples.mountain@[i] as int,
                samples.hill@[i] as int,
                samples.detail@[i] as int,
            ) as i64,
    )
}

/// Elevation of every cell after erosion.
pub open spec fn terrain_elevation(
    g: HexGrid,
    config: WorldGenConfig,
    samples: NoiseSamples,
    draws: RandomDraws,
) -> Seq<i64> {
    let raw = terrain_raw(g, config, samples, draws);
    Seq::new(g.cells().len(), |i: int| eroded(g, raw, i) as i64)
}

/// Sea level before the random shift: the elevation at the target percentile.
pub open spec fn base_sea_level(e: Seq<i64>, target: int) -> int {
    choose|v: int| order_statistic(e, percentile_index(e.len() as int, target), v)
}

pub open spec fn zeros(n: nat) -> Seq<i64> {
    Seq::new(n, |i: int| 0i64)
}

pub open spec fn flow_view(g: HexGrid, e: Seq<i64>, sea: int) -> Seq<Option<(usize, usize)>> {
    Seq::new(g.cells().len(), |i: int| flow_entry(g, e, sea, i))
}

/// Flow accumulation with the precipitation the hydrology stage reads (zero).
pub open spec fn acc_view(g: HexGrid, e: Seq<i64>, sea: int) -> Seq<i64> {
    choose|a: Seq<i64>| balanced(g, e, sea, flow_view(g, e, sea), zeros(g.cells().len()), a)
}

pub open spec fn ocean_view(g: HexGrid, e: Seq<i64>, sea: int) -> Seq<i64> {
    Seq::new(g.cells().len(), |i: int| (choose|d: int| is_ocean_distance(g, e, sea, i, d)) as i64)
}

pub open spec fn temperature_view(
    g: HexGrid,
    config: WorldGenConfig,
    samples: NoiseSamples,
    e: Seq<i64>,
    sea: int,
) -> Seq<i64> {
    let ocean = ocean_view(g, e, sea);
    Seq::new(
        g.cells().len(),
        |i: int|
            temperature_of(
                g.cells()[i].r as int,
                e[i] as int,
                sea,
                ocean[i] as int,
                samples.temperature@[i] as int,
                config.global_temperature as int,
            ) as i64,
    )
}

pub open spec fn precipitation_view(
    g: HexGrid,
    config: WorldGenConfig,
    samples: NoiseSamples,
    e: Seq<i64>,
    sea: int,
) -> Seq<i64> {
    let ocean = ocean_view(g, e, sea);
    let wet = Seq::new(
        g.cells().len(),
        |i: int|
            precipitation_of(
                g.cells()[i].r as int,
                e[i] as int,
                sea,
                ocean[i] as int,
                samples.precipitation@[i] as int,
                config.climate_extremeness as int,
                config.rainfall_multiplier as int,
            ) as i64,
    );
    Seq::new(
        g.cells().len(),
        |i: int| spec_fmul(wet[i] as int, 1000 - rain_shadow(g, e, sea, i)) as i64,
    )
}

/// The lake candidates ranked best first.
pub open spec fn ranked_view(g: HexGrid, e: Seq<i64>, sea: int) -> Seq<(i64, usize)> {
    choose|r: Seq<(i64, usize)>| ranking(g, e, sea, flow_view(g, e, sea), r)
}

/// The cells that become lakes.
pub open spec fn lakes_view(g: HexGrid, e: Seq<i64>, sea: int) -> Seq<usize> {
    let ranked = ranked_view(g, e, sea);
    greedy_lakes(g, ranked, lake_window(ranked.len() as int))
}

/// Biomes with the given cells turned into lakes.
pub open spec fn with_lakes(b: Seq<BiomeType>, lakes: Seq<usize>) -> Seq<BiomeType> {
    Seq::new(
        b.len(),
        |i: int|
            if lakes.contains(i as usize) {
                BiomeType::Lake
            } else {
                b[i]
            },
    )
}

/// The fields of the surface above the rock: hydrology, climate, biomes, rivers.
pub struct SurfaceView {
    pub flow: Seq<Option<(usize, usize)>>,
    pub drainage: Seq<i64>,
    pub coastal: Seq<bool>,
    pub temperature: Seq<i64>,
    pub precipitation: Seq<i64>,
    pub biome: Seq<BiomeType>,
    pub rivers: Seq<bool>,
    pub rates: Seq<i64>,
}

pub open spec fn surface_view(
    g: HexGrid,
    config: WorldGenConfig,
    samples: NoiseSamples,
    geo: Seq<GeologyType>,
    e: Seq<i64>,
    sea: int,
) -> SurfaceView {
    let n = g.cells().len();
    let flow = flow_view(g, e, sea);
    let acc = acc_view(g, e, sea);
    let river = Seq::new(n, |i: int| acc[i] >= river_threshold(e[i] as int, sea, 0));
    let coast = Seq::new(n, |i: int| coastal(g, e, sea, i));
    let temp = temperature_view(g, config, samples, e, sea);
    let precip = precipitation_view(g, config, samples, e, sea);
    let drain = Seq::new(n, |i: int| cell_drainage(g, e, geo[i], i) as i64);
    let biome0 = Seq::new(
        n,
        |i: int|
            cell_biome(
                e[i] as int,
                sea,
                temp[i] as int,
                precip[i] as int,
                drain[i] as int,
                coast[i],
            ),
    );
    let rivers = Seq::new(n, |i: int| river[i] || acc[i] >= biome_river_threshold(biome0[i]));
    let rates = Seq::new(
        n,
        |i: int| river_flow_of(acc[i] as int, max_acc(acc, n as int), rivers[i]) as i64,
    );
    let biome = with_lakes(biome0, lakes_view(g, e, sea));
    SurfaceView {
        flow,
        drainage: drain,
        coastal: coast,
        temperature: temp,
        precipitation: precip,
        biome,
        rivers,
        rates,
    }
}

/// Tile `t` is the record of cell `i`.
pub open spec fn tile_is(
    g: HexGrid,
    samples: NoiseSamples,
    geo: Seq<GeologyType>,
    e: Seq<i64>,
    s: SurfaceView,
    i: int,
    t: WorldTile,
) -> bool {
    &&& t.hex_coord == g.cells()[i]
    &&& t.elevation == e[i]
    &&& t.biome == s.biome[i]
    &&& t.has_river == s.rivers[i]
    &&& t.river_flow == s.rates[i]
    &&& forall|k: int| 0 <= k < 6 ==> #[trigger] t.river_edges@[k] == river_edge(g, s.flow, s.rivers, i, k)
    &&& t.is_coastal == s.coastal[i]
    &&& t.resource == gated_pick(
        generator_resources(s.biome[i]),
        g.cells()[i],
        samples.resource@[i] as int,
    )
    &&& t.temperature == s.temperature[i]
    &&& t.precipitation == s.precipitation[i]
    &&& t.drainage == s.drainage[i]
    &&& t.geology == geo[i]
    &&& t.soil_fertility == soil_fertility(s.biome[i], s.rivers[i], geo[i])
    &&& t.strategic_feature == StrategicFeature::NoFeature
    &&& t.defensibility == 0
    &&& t.trade_value == 0
    &&& t.flood_risk == 0
    &&& t.naval_access == 0
}

/// `tiles` and `sea` are what the pipeline makes of these inputs.
pub open spec fn generated(
    g: HexGrid,
    config: WorldGenConfig,
    samples: NoiseSamples,
    draws: RandomDraws,
    tiles: Seq<WorldTile>,
    sea: int,
) -> bool {
    let geo = terrain_geology(g, config, samples, draws);
    let e = terrain_elevation(g, config, samples, draws);
    &&& sea == base_sea_level(e, config.target_land_percentage as int) + draws.sea_level_shift
    &&& tiles.len() == g.cells().len()
    &&& forall|i: int|
        0 <= i < tiles.len() ==> tile_is(
            g,
            samples,
            geo,
            e,
            surface_view(g, config, samples, geo, e, sea),
            i,
            #[trigger] tiles[i],
        )
}

/// Generation is deterministic: the same grid, configuration, noise samples
/// and random draws always give the same cells and the same sea level.
pub proof fn lemma_generation_deterministic(
    g: HexGrid,
    config: WorldGenConfig,
    samples: NoiseSamples,
    draws: RandomDraws,
    t1: Seq<WorldTile>,
    s1: int,
    t2: Seq<WorldTile>,
    s2: int,
)
    requires
        generated(g, config, samples, draws, t1, s1),
        generated(g, config, samples, draws, t2, s2),
    ensures
        t1 == t2,
        s1 == s2,
{
    let geo = terrain_geology(g, config, samples, draws);
    let e = terrain_elevation(g, config, samples, draws);
    let sv = surface_view(g, config, samples, geo, e, s1);
    assert forall|i: int| 0 <= i < t1.len() implies t1[i] == t2[i] by {
        assert(tile_is(g, samples, geo, e, sv, i, t1[i]));
        assert(tile_is(g, samples, geo, e, sv, i, t2[i]));
        assert(t1[i].river_edges@ =~= t2[i].river_edges@) by {
            assert forall|k: int| 0 <= k < 6 implies t1[i].river_edges@[k] == t2[i].river_edges@[k] by {
                assert(t1[i].river_edges@[k] == river_edge(g, sv.flow, sv.rivers, i, k));
                assert(t2[i].river_edges@[k] == river_edge(g, sv.flow, sv.rivers, i, k));
            }
        }
        assert(t1[i].river_edges =~= t2[i].river_edges);
    }
    assert(t1 =~= t2);
}

} // verus!

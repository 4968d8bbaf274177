use hexworld::config::{WorldGenConfig, WorldGenError};
use hexworld::grid::HexGrid;
use hexworld::hex::{hex_distance, HexCoord};
use hexworld::random::RandomDraws;
use hexworld::terrain::BiomeType;
use hexworld::world::{generate_world, summarize, NoiseSamples, WorldGenerator, WorldSummary, WorldTile};

/// Deterministic stand-in noise: a different integer pattern per layer.
fn samples(radius: i32) -> NoiseSamples {
    let n = HexGrid::new(radius).len();
    let layer = |mul: usize, add: usize| -> Vec<i64> {
        (0..n).map(|i| ((i * mul + add) % 2001) as i64 - 1000).collect()
    };
    NoiseSamples {
        plate: layer(389, 17),
        mountain: layer(577, 3),
        hill: layer(733, 101),
        detail: layer(911, 59),
        temperature: layer(257, 7),
        precipitation: layer(613, 400),
        resource: layer(997, 11),
    }
}

fn same_tiles(a: &[WorldTile], b: &[WorldTile]) -> bool {
    a.len() == b.len()
        && a.iter().zip(b.iter()).all(|(x, y)| {
            x.hex_coord == y.hex_coord
                && x.elevation == y.elevation
                && x.biome == y.biome
                && x.has_river == y.has_river
                && x.river_flow == y.river_flow
                && x.river_edges == y.river_edges
                && x.is_coastal == y.is_coastal
                && x.resource == y.resource
                && x.temperature == y.temperature
                && x.precipitation == y.precipitation
                && x.drainage == y.drainage
                && x.geology == y.geology
                && x.soil_fertility == y.soil_fertility
        })
}

#[test]
fn one_tile_per_coordinate() {
    for radius in 1..=6 {
        let mut g = WorldGenerator::new(radius);
        let tiles = g.generate(&samples(radius), 11).unwrap();
        let r = radius as usize;
        assert_eq!(tiles.len(), 3 * r * r + 3 * r + 1);
        for i in 0..tiles.len() {
            assert!(hex_distance(tiles[i].hex_coord, HexCoord::new(0, 0)) <= radius as i64);
            for j in (i + 1)..tiles.len() {
                assert_ne!(tiles[i].hex_coord, tiles[j].hex_coord);
            }
        }
        assert_eq!(g.tiles.len(), tiles.len());
    }
}

#[test]
fn finished_tiles_keep_the_invariants() {
    let radius = 8;
    let mut g = WorldGenerator::with_config(radius, WorldGenConfig::mediterranean_world());
    let tiles = g.generate(&samples(radius), 5).unwrap();
    let sea = g.sea_level;
    for t in &tiles {
        assert_eq!(t.elevation <= sea, t.biome == BiomeType::Ocean);
        if t.has_river {
            assert!(t.river_flow > 0 && t.river_flow <= 1000);
        } else {
            assert_eq!(t.river_flow, 0);
        }
        if !t.has_river {
            assert_eq!(t.river_edges, [false; 6]);
        }
        assert!((-1000..=1000).contains(&t.elevation));
        assert!((0..=1000).contains(&t.temperature));
        assert!((0..=1000).contains(&t.precipitation));
        assert!((0..=1000).contains(&t.drainage));
        assert!((0..=1000).contains(&t.soil_fertility));
    }
}

#[test]
fn same_seed_same_world() {
    let radius = 7;
    let mut a = WorldGenerator::with_config(radius, WorldGenConfig::archipelago_world());
    let mut b = WorldGenerator::with_config(radius, WorldGenConfig::archipelago_world());
    let ta = a.generate(&samples(radius), 42).unwrap();
    let tb = b.generate(&samples(radius), 42).unwrap();
    assert!(same_tiles(&ta, &tb));
    assert_eq!(a.sea_level, b.sea_level);
    let config = WorldGenConfig::fragmented_continents();
    let draws = RandomDraws::from_seed(&config, radius, 9);
    let (x, sx) = generate_world(&HexGrid::new(radius), &config, &samples(radius), &draws).unwrap();
    let (y, sy) = generate_world(&HexGrid::new(radius), &config, &samples(radius), &draws).unwrap();
    assert!(same_tiles(&x, &y));
    assert_eq!(sx, sy);
}

#[test]
fn full_land_target_leaves_only_the_lowest_cells_ocean() {
    let radius = 5;
    let mut config = WorldGenConfig::pangaea();
    config.target_land_percentage = 1000;
    config.sea_level_variance = 0;
    let mut g = WorldGenerator::with_config(radius, config);
    let tiles = g.generate(&samples(radius), 1).unwrap();
    assert_eq!(tiles.len(), 91);
    let lowest = tiles.iter().map(|t| t.elevation).min().unwrap();
    assert_eq!(g.sea_level, lowest);
    for t in &tiles {
        if t.elevation > lowest {
            assert_ne!(t.biome, BiomeType::Ocean);
        } else {
            assert_eq!(t.biome, BiomeType::Ocean);
        }
    }
    let ocean = tiles.iter().filter(|t| t.biome == BiomeType::Ocean).count();
    let at_lowest = tiles.iter().filter(|t| t.elevation == lowest).count();
    assert_eq!(ocean, at_lowest);
    assert!(ocean < 91);
}

#[test]
fn zero_land_target_gives_all_ocean() {
    let radius = 4;
    let mut config = WorldGenConfig::default();
    config.target_land_percentage = 0;
    config.sea_level_variance = 0;
    let mut g = WorldGenerator::with_config(radius, config);
    let tiles = g.generate(&samples(radius), 3).unwrap();
    assert!(tiles.iter().all(|t| t.biome == BiomeType::Ocean && !t.has_river));
    assert_eq!(g.summary(), WorldSummary { tiles: 61, land: 0, river: 0, lakes: 0 });
}

#[test]
fn summary_counts_match_the_tiles() {
    let radius = 6;
    let mut g = WorldGenerator::with_config(radius, WorldGenConfig::pangaea());
    let tiles = g.generate(&samples(radius), 21).unwrap();
    let s = summarize(&tiles, g.sea_level);
    assert_eq!(s.tiles, 127);
    assert_eq!(s.land, tiles.iter().filter(|t| t.elevation > g.sea_level).count());
    assert_eq!(s.river, tiles.iter().filter(|t| t.has_river).count());
    assert_eq!(s.lakes, tiles.iter().filter(|t| t.biome == BiomeType::Lake).count());
    assert_eq!(g.summary(), s);
}

#[test]
fn refused_runs_report_why() {
    let mut g = WorldGenerator::new(0);
    assert_eq!(g.generate(&samples(1), 1).unwrap_err(), WorldGenError::RadiusOutOfRange);
    let mut bad = WorldGenConfig::default();
    bad.rainfall_multiplier = 5000;
    let mut g = WorldGenerator::with_config(3, bad);
    assert_eq!(g.generate(&samples(3), 1).unwrap_err(), WorldGenError::ConfigOutOfRange);
    let mut g = WorldGenerator::new(3);
    assert_eq!(g.generate(&samples(2), 1).unwrap_err(), WorldGenError::SamplesMismatch);
    assert!(g.tiles.is_empty());
    let config = WorldGenConfig::default();
    let draws = RandomDraws { center_jitter: vec![(0, 0); 2], zone_positions: vec![0], sea_level_shift: 0 };
    assert_eq!(generate_world(&HexGrid::new(3), &config, &samples(3), &draws).unwrap_err(), WorldGenError::DrawsMismatch);
    let mut loud = samples(3);
    loud.hill[0] = 1001;
    let ok_draws = RandomDraws::from_seed(&config, 3, 1);
    assert_eq!(generate_world(&HexGrid::new(3), &config, &loud, &ok_draws).unwrap_err(), WorldGenError::SamplesMismatch);
}

#[test]
fn radius_zero_grid_is_refused() {
    let config = WorldGenConfig::default();
    let draws = RandomDraws::from_seed(&config, 0, 1);
    let r = generate_world(&HexGrid::new(0), &config, &samples(0), &draws);
    assert_eq!(r.unwrap_err(), WorldGenError::RadiusOutOfRange);
}

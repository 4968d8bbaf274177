use hexworld::config::{WorldGenConfig, WorldGenError};
use hexworld::fixed::{clamp, div_floor, fmul};
use hexworld::grid::HexGrid;
use hexworld::hex::{hex_distance, step_in_direction, HexCoord};
use hexworld::random::RandomDraws;
use hexworld::tectonics::{continent_centers, continental_influence};
use hexworld::terrain::{BiomeType, GeologyType, StrategicFeature};

#[test]
fn fixed_point_helpers_round_down() {
    assert_eq!(div_floor(-7, 2), -4);
    assert_eq!(div_floor(7, 2), 3);
    assert_eq!(div_floor(-8, 2), -4);
    assert_eq!(fmul(500, 500), 250);
    assert_eq!(fmul(-1, 1), -1);
    assert_eq!(fmul(-1000, 300), -300);
    assert_eq!(clamp(1200, -1000, 1000), 1000);
    assert_eq!(clamp(-1200, -1000, 1000), -1000);
    assert_eq!(clamp(5, -1000, 1000), 5);
}

#[test]
fn neighbors_follow_direction_order() {
    let c = HexCoord::new(0, 0);
    let ns = c.neighbors();
    let expected = [(1, 0), (1, -1), (0, -1), (-1, 0), (-1, 1), (0, 1)];
    for (n, (q, r)) in ns.iter().zip(expected.iter()) {
        assert_eq!((n.q, n.r), (*q, *r));
    }
    let d = HexCoord::new(3, -2).neighbors();
    assert_eq!(d[4], HexCoord::new(2, -1));
}

#[test]
fn direction_to_finds_neighbours_only() {
    let c = HexCoord::new(0, 0);
    assert_eq!(c.direction_to(HexCoord::new(1, -1)), Some(1));
    assert_eq!(c.direction_to(HexCoord::new(0, 1)), Some(5));
    assert_eq!(c.direction_to(HexCoord::new(2, 0)), None);
    assert_eq!(c.direction_to(c), None);
}

#[test]
fn step_and_distance() {
    let c = HexCoord::new(2, -3);
    assert_eq!(step_in_direction(c, 3), HexCoord::new(1, -3));
    assert_eq!(hex_distance(HexCoord::new(0, 0), HexCoord::new(2, -1)), 2);
    assert_eq!(hex_distance(HexCoord::new(1, 2), HexCoord::new(-1, -1)), 5);
    assert_eq!(hex_distance(c, c), 0);
    for d in 0..6 {
        assert_eq!(hex_distance(c, step_in_direction(c, d)), 1);
    }
}

#[test]
fn grid_has_three_r_squared_plus_three_r_plus_one_cells() {
    for radius in 0..=8 {
        let g = HexGrid::new(radius);
        let r = radius as usize;
        assert_eq!(g.len(), 3 * r * r + 3 * r + 1);
        let coords = g.coords();
        for (i, c) in coords.iter().enumerate() {
            assert!(hex_distance(*c, HexCoord::new(0, 0)) <= radius as i64);
            assert_eq!(g.find(*c), Some(i));
        }
        for i in 0..coords.len() {
            for j in (i + 1)..coords.len() {
                assert_ne!(coords[i], coords[j]);
            }
        }
    }
}

#[test]
fn grid_lookup_and_neighbours() {
    let g = HexGrid::new(2);
    assert_eq!(g.find(HexCoord::new(2, 1)), None);
    let i = g.find(HexCoord::new(2, -1)).unwrap();
    assert_eq!(g.coord(i), HexCoord::new(2, -1));
    let centre = g.find(HexCoord::new(0, 0)).unwrap();
    for d in 0..6 {
        let j = g.neighbor(centre, d).unwrap();
        assert_eq!(g.coord(j), step_in_direction(HexCoord::new(0, 0), d));
    }
    assert_eq!(g.neighbor(i, 0), None);
    assert_eq!(g.radius(), 2);
}

#[test]
fn presets_are_valid_and_errors_are_reported() {
    assert_eq!(WorldGenConfig::default().validate(), Ok(()));
    assert_eq!(WorldGenConfig::pangaea().validate(), Ok(()));
    assert_eq!(WorldGenConfig::archipelago_world().validate(), Ok(()));
    assert_eq!(WorldGenConfig::fragmented_continents().validate(), Ok(()));
    assert_eq!(WorldGenConfig::dual_supercontinents().validate(), Ok(()));
    assert_eq!(WorldGenConfig::mediterranean_world().validate(), Ok(()));
    let mut c = WorldGenConfig::default();
    c.target_land_percentage = 1200;
    assert_eq!(c.validate(), Err(WorldGenError::ConfigOutOfRange));
    let mut c = WorldGenConfig::default();
    c.continent_count = 0;
    assert_eq!(c.validate(), Err(WorldGenError::ConfigOutOfRange));
    let mut c = WorldGenConfig::default();
    c.sea_level_variance = -1;
    assert_eq!(c.validate(), Err(WorldGenError::ConfigOutOfRange));
}

#[test]
fn preset_values() {
    let p = WorldGenConfig::pangaea();
    assert_eq!(p.continent_count, 1);
    assert_eq!(p.continent_size, 2500);
    assert_eq!(p.sea_level_variance, 100);
    let a = WorldGenConfig::archipelago_world();
    assert_eq!(a.archipelago_zones, 4);
    assert_eq!(a.volcanic_activity, 1800);
    let m = WorldGenConfig::mediterranean_world();
    assert_eq!(m.tectonic_activity, 1300);
    assert!(m.inland_seas);
}

#[test]
fn influence_decays_geometrically() {
    assert_eq!(continental_influence(975, 0), 1000);
    assert_eq!(continental_influence(975, 1), 975);
    assert_eq!(continental_influence(975, 2), 950);
    assert_eq!(continental_influence(750, 100), 0);
    assert_eq!(continental_influence(1000, 500), 1000);
}

fn still_draws(count: usize, zones: usize) -> RandomDraws {
    RandomDraws { center_jitter: vec![(0, 0); count], zone_positions: vec![0; zones], sea_level_shift: 0 }
}

#[test]
fn single_and_twin_continent_seeds() {
    let mut c = WorldGenConfig::pangaea();
    c.archipelago_zones = 0;
    assert_eq!(continent_centers(&c, 50, &still_draws(1, 0)), vec![HexCoord::new(0, 0)]);
    let d = WorldGenConfig::dual_supercontinents();
    let seeds = continent_centers(&d, 50, &still_draws(2, 1));
    assert_eq!(
        seeds,
        vec![HexCoord::new(-37, 0), HexCoord::new(37, 0), HexCoord::new(35, -15), HexCoord::new(20, 15)]
    );
}

#[test]
fn ring_of_continent_seeds() {
    let c = WorldGenConfig::default();
    let seeds = continent_centers(&c, 100, &still_draws(4, 1));
    assert_eq!(
        seeds,
        vec![
            HexCoord::new(40, 0),
            HexCoord::new(20, -40),
            HexCoord::new(-40, 0),
            HexCoord::new(-20, 40),
            HexCoord::new(85, 0),
            HexCoord::new(70, -15),
            HexCoord::new(55, 15),
        ]
    );
    let mut tight = WorldGenConfig::default();
    tight.continent_clustering = 1000;
    tight.archipelago_zones = 0;
    let draws = RandomDraws { center_jitter: vec![(3, -2), (0, 0), (0, 0), (0, 0)], zone_positions: vec![], sea_level_shift: 0 };
    let seeds = continent_centers(&tight, 100, &draws);
    assert_eq!(seeds[0], HexCoord::new(23, -2));
}

#[test]
fn seeded_draws_fit_and_repeat() {
    let c = WorldGenConfig::fragmented_continents();
    let a = RandomDraws::from_seed(&c, 60, 7);
    let b = RandomDraws::from_seed(&c, 60, 7);
    assert!(a.check(&c, 60));
    assert_eq!(a.center_jitter.len(), 7);
    assert_eq!(a.zone_positions.len(), 1);
    assert!(a.center_jitter.iter().all(|(q, r)| (-10..=10).contains(q) && (-10..=10).contains(r)));
    assert!(a.zone_positions.iter().all(|t| (0..6 * 42).contains(t)));
    assert!(a.sea_level_shift >= -100 && a.sea_level_shift < 100);
    assert_eq!(a.center_jitter, b.center_jitter);
    assert_eq!(a.zone_positions, b.zone_positions);
    assert_eq!(a.sea_level_shift, b.sea_level_shift);
    let spread: Vec<RandomDraws> = (0..8u64).map(|s| RandomDraws::from_seed(&c, 60, s)).collect();
    assert!(spread.iter().any(|d| d.center_jitter != a.center_jitter));
    let mut still = WorldGenConfig::default();
    still.sea_level_variance = 0;
    assert_eq!(RandomDraws::from_seed(&still, 10, 3).sea_level_shift, 0);
}

#[test]
fn draws_that_do_not_fit_are_detected() {
    let c = WorldGenConfig::default();
    let bad = RandomDraws { center_jitter: vec![(11, 0); 4], zone_positions: vec![0], sea_level_shift: 0 };
    assert!(!bad.check(&c, 50));
    let short = RandomDraws { center_jitter: vec![(0, 0); 3], zone_positions: vec![0], sea_level_shift: 0 };
    assert!(!short.check(&c, 50));
    let shifted = RandomDraws { center_jitter: vec![(0, 0); 4], zone_positions: vec![0], sea_level_shift: 101 };
    assert!(!shifted.check(&c, 50));
    assert!(still_draws(4, 1).check(&c, 50));
}

#[test]
fn category_codes_round_trip() {
    for v in 0..=9u8 {
        assert_eq!(GeologyType::from_u8(v).code(), v);
    }
    assert_eq!(GeologyType::from_u8(42), GeologyType::Sedimentary);
    for v in [0u8, 1, 2, 10, 11, 12, 20, 21, 22, 23, 30, 31, 32, 40, 41, 42, 50, 51, 60, 61, 62] {
        assert_eq!(BiomeType::from_u8(v).code(), v);
    }
    assert_eq!(BiomeType::from_u8(99), BiomeType::TemperateGrassland);
    assert_eq!(StrategicFeature::from_u8(5), StrategicFeature::NaturalHarbor);
    assert_eq!(StrategicFeature::from_u8(0), StrategicFeature::NoFeature);
    assert_eq!(StrategicFeature::from_u8(14).name(), "River Ford");
    assert_eq!(StrategicFeature::NoFeature.name(), "");
}

#[test]
fn seeds_keep_twenty_cells_from_the_edge() {
    let mut c = WorldGenConfig::default();
    c.continent_count = 3;
    c.continent_clustering = 0;
    c.archipelago_zones = 0;
    let seeds = continent_centers(&c, 30, &still_draws(3, 0));
    assert_eq!(seeds.len(), 3);
    assert_eq!(seeds[0], HexCoord::new(10, 0));
    assert!(seeds.iter().all(|s| s.q.abs() <= 10 && s.r.abs() <= 10));
}

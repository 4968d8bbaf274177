use hexworld::accumulation::flow_accumulation;
use hexworld::biome::{assign_biomes, determine_terrestrial_biome, fertility_of};
use hexworld::climate::{apply_rain_shadows, ocean_distances, precipitations, temperatures};
use hexworld::elevation::{base_elevation, erode};
use hexworld::grid::HexGrid;
use hexworld::hex::HexCoord;
use hexworld::hydrology::{drainage, flow_directions};
use hexworld::lakes::{lake_candidate_score, place_lakes, rank_lake_candidates};
use hexworld::resources::{biome_resource, generate_resource, ResourceType};
use hexworld::rivers::{coastal_cells, refine_rivers, river_edges, river_flow_rates, river_network};
use hexworld::sea_level::{count_land, percentile_elevation};
use hexworld::terrain::{BiomeType, GeologyType};

/// Radius-one grid: a centre at `centre` with the ring at `ring + 10 * index`.
fn cone(centre: i64, ring: i64) -> (HexGrid, Vec<i64>, usize) {
    let g = HexGrid::new(1);
    let c = g.find(HexCoord::new(0, 0)).unwrap();
    let e: Vec<i64> = (0..g.len()).map(|i| if i == c { centre } else { ring + 10 * i as i64 }).collect();
    (g, e, c)
}

#[test]
fn percentile_picks_sorted_position() {
    let e = vec![50, 10, 40, 20, 30];
    assert_eq!(percentile_elevation(&e, 400), 40);
    assert_eq!(percentile_elevation(&e, 0), 50);
    assert_eq!(percentile_elevation(&e, 1000), 10);
    assert_eq!(count_land(&e, 40), 1);
    assert_eq!(count_land(&e, 50), 0);
    assert_eq!(count_land(&e, 9), 5);
}

#[test]
fn land_fraction_tracks_target() {
    let e: Vec<i64> = (0..200).map(|i| (i * 37 % 200) * 5 - 500).collect();
    for target in [0i64, 100, 250, 350, 500, 750, 1000] {
        let sea = percentile_elevation(&e, target);
        let land = count_land(&e, sea) as i64;
        assert!(target * 200 - 1000 <= 1000 * land && 1000 * land <= target * 200);
    }
    let flat = vec![7; 30];
    assert_eq!(count_land(&flat, percentile_elevation(&flat, 0)), 0);
}

#[test]
fn elevation_layers_by_geology() {
    let geo = vec![GeologyType::OceanicCrust, GeologyType::Granite, GeologyType::Sedimentary, GeologyType::Volcanic];
    let m = vec![1000, 1000, 1000, 1000];
    let h = vec![500, 0, -1000, 1000];
    let d = vec![0, 0, 0, 1000];
    let e = base_elevation(&geo, &m, &h, &d);
    assert_eq!(e, vec![-500, 800, -100, 1000]);
}

#[test]
fn erosion_lowers_a_peak_once() {
    let (g, mut e, c) = cone(900, 100);
    e[c] = 900;
    let r = erode(&g, &e);
    let ring_sum: i64 = (0..7).filter(|&i| i != c).map(|i| e[i]).sum();
    let excess = 900 * 6 - ring_sum;
    assert_eq!(r[c], 900 - excess * 2 / 600);
    for i in 0..7 {
        if i != c {
            assert!(r[i] == e[i] || r[i] < e[i]);
        }
    }
    let low = vec![-300; 7];
    assert_eq!(erode(&g, &low), low);
}

#[test]
fn drainage_from_rock_and_slope() {
    let (g, e, c) = cone(100, 300);
    let geo = vec![GeologyType::Limestone; 7];
    let dr = drainage(&g, &e, &geo);
    assert_eq!(dr[c], 1000);
    let flat = vec![0; 7];
    let geo2 = vec![GeologyType::Granite; 7];
    assert_eq!(drainage(&g, &flat, &geo2), vec![300; 7]);
}

#[test]
fn flow_runs_downhill_and_ends() {
    let (g, e, c) = cone(100, 300);
    let flow = flow_directions(&g, &e, 0);
    assert_eq!(flow[c], None);
    for i in 0..7 {
        if i != c {
            let (d, t) = flow[i].unwrap();
            assert_eq!(t, c);
            assert_eq!(g.neighbor(i, d), Some(c));
        }
    }
    let ocean = flow_directions(&g, &e, 1000);
    assert!(ocean.iter().all(|f| f.is_none()));
    let g5 = HexGrid::new(5);
    let e5: Vec<i64> = (0..g5.len()).map(|i| ((i * 7919) % 181) as i64 * 10 - 900).collect();
    let f5 = flow_directions(&g5, &e5, -950);
    for start in 0..g5.len() {
        let mut at = start;
        let mut steps = 0;
        while let Some((_, t)) = f5[at] {
            assert!(e5[t] < e5[at]);
            at = t;
            steps += 1;
            assert!(steps < g5.len());
        }
    }
}

#[test]
fn accumulation_is_conserved() {
    let (g, e, c) = cone(100, 300);
    let flow = flow_directions(&g, &e, 0);
    let precip = vec![400; 7];
    let acc = flow_accumulation(&g, &e, 0, &flow, &precip);
    assert_eq!(acc[c], 1000 + 6 * (1000 + 200));
    let roots: i64 = (0..7).filter(|&i| flow[i].is_none()).map(|i| acc[i]).sum();
    let bonuses: i64 = (0..7).filter(|&i| flow[i].is_some()).map(|i| precip[i] / 2).sum();
    assert_eq!(roots, 1000 * 7 + bonuses);
    let g5 = HexGrid::new(5);
    let e5: Vec<i64> = (0..g5.len()).map(|i| ((i * 7919) % 181) as i64 * 10 - 900).collect();
    let f5 = flow_directions(&g5, &e5, -400);
    let rain5: Vec<i64> = (0..g5.len()).map(|i| (i as i64 * 13) % 1001).collect();
    let a5 = flow_accumulation(&g5, &e5, -400, &f5, &rain5);
    let land = e5.iter().filter(|&&x| x > -400).count() as i64;
    let roots: i64 = (0..g5.len()).filter(|&i| f5[i].is_none()).map(|i| a5[i]).sum();
    let bonuses: i64 = (0..g5.len()).filter(|&i| f5[i].is_some()).map(|i| rain5[i] / 2).sum();
    assert_eq!(roots, 1000 * land + bonuses);
}

#[test]
fn rivers_flow_rates_and_edges() {
    let (g, e, c) = cone(100, 300);
    let flow = flow_directions(&g, &e, 0);
    let dry = vec![0; 7];
    let acc = flow_accumulation(&g, &e, 0, &flow, &dry);
    assert_eq!(acc[c], 7000);
    let river = river_network(&e, 0, &dry, &acc);
    for i in 0..7 {
        assert_eq!(river[i], i == c);
    }
    let rates = river_flow_rates(&acc, &river);
    assert_eq!(rates[c], 1000);
    assert!((0..7).filter(|&i| i != c).all(|i| rates[i] == 0));
    let edges = river_edges(&g, &flow, &river);
    assert_eq!(edges[c], [true; 6]);
    for i in 0..7 {
        if i != c {
            assert_eq!(edges[i], [false; 6]);
        }
    }
    let low = vec![500, 1000, 2500, 12000];
    let rates = river_flow_rates(&low, &vec![true, true, true, true]);
    assert_eq!(rates, vec![100, 100, 208, 1000]);
}

#[test]
fn refinement_uses_biome_thresholds() {
    let river = vec![false, false, false, true];
    let acc = vec![2000, 2000, 11999, 0];
    let biome = vec![BiomeType::TropicalRainforest, BiomeType::HotDesert, BiomeType::ColdDesert, BiomeType::Ocean];
    assert_eq!(refine_rivers(&river, &acc, &biome), vec![true, false, false, true]);
}

#[test]
fn coast_marks_land_next_to_ocean() {
    let (g, e, c) = cone(-100, 300);
    let coast = coastal_cells(&g, &e, 0);
    assert!(!coast[c]);
    for i in 0..7 {
        if i != c {
            assert!(coast[i]);
        }
    }
}

#[test]
fn climate_formulas() {
    let g = HexGrid::new(1);
    let e = vec![-500; 7];
    let ocean = ocean_distances(&g, &e, 0);
    assert_eq!(ocean, vec![0; 7]);
    let land = vec![500; 7];
    assert_eq!(ocean_distances(&g, &land, 0), vec![20; 7]);
    let noise = vec![0; 7];
    let t = temperatures(&g, &land, 0, &vec![20; 7], &noise, 1000);
    let c = g.find(HexCoord::new(0, 0)).unwrap();
    assert_eq!(t[c], 1000 - 750 + 30);
    let sea_t = temperatures(&g, &e, 0, &ocean, &noise, 1000);
    assert_eq!(sea_t[c], 1000);
    let p = precipitations(&g, &e, 0, &ocean, &noise, 1000, 900);
    assert_eq!(p[c], 900);
    let north = g.find(HexCoord::new(0, -1)).unwrap();
    assert_eq!(p[north], 899);
    let g40 = HexGrid::new(40);
    let i = g40.find(HexCoord::new(0, 40)).unwrap();
    let flat = vec![-500; g40.len()];
    let od = vec![0; g40.len()];
    let nz = vec![0; g40.len()];
    let t40 = temperatures(&g40, &flat, 0, &od, &nz, 1000);
    assert_eq!(t40[i], 1000 - 128);
}

#[test]
fn rain_shadow_keeps_strongest() {
    let g = HexGrid::new(3);
    let peak = g.find(HexCoord::new(0, 0)).unwrap();
    let e: Vec<i64> = (0..g.len()).map(|i| if i == peak { 900 } else { 100 }).collect();
    let p = vec![1000; g.len()];
    let after = apply_rain_shadows(&g, &e, 0, &p);
    assert_eq!(after[peak], 1000);
    let one = g.find(HexCoord::new(1, 0)).unwrap();
    let two = g.find(HexCoord::new(2, 0)).unwrap();
    let three = g.find(HexCoord::new(3, 0)).unwrap();
    assert_eq!(after[one], 700);
    assert_eq!(after[two], 790);
    assert_eq!(after[three], 853);
}

#[test]
fn biome_table() {
    assert_eq!(determine_terrestrial_biome(900, 800, 500, 100, false), BiomeType::TropicalRainforest);
    assert_eq!(determine_terrestrial_biome(100, 100, 500, 100, false), BiomeType::TundraBarren);
    assert_eq!(determine_terrestrial_biome(100, 500, 500, 100, false), BiomeType::TundraWet);
    assert_eq!(determine_terrestrial_biome(500, 100, 500, 700, false), BiomeType::AlpineTundra);
    assert_eq!(determine_terrestrial_biome(500, 450, 500, 450, false), BiomeType::MontaneForest);
    assert_eq!(determine_terrestrial_biome(500, 700, 200, 100, true), BiomeType::SaltMarsh);
    assert_eq!(determine_terrestrial_biome(800, 700, 200, 100, true), BiomeType::Mangrove);
    assert_eq!(determine_terrestrial_biome(500, 800, 350, 100, false), BiomeType::Wetland);
    assert_eq!(determine_terrestrial_biome(300, 300, 500, 100, false), BiomeType::TaigaBorealForest);
    assert_eq!(determine_terrestrial_biome(300, 100, 500, 100, false), BiomeType::ColdDesert);
    assert_eq!(determine_terrestrial_biome(700, 100, 500, 100, false), BiomeType::HotDesert);
    assert_eq!(determine_terrestrial_biome(700, 200, 500, 100, false), BiomeType::Shrubland);
    assert_eq!(determine_terrestrial_biome(500, 200, 500, 100, false), BiomeType::TemperateGrassland);
    assert_eq!(determine_terrestrial_biome(500, 400, 500, 100, false), BiomeType::TemperateConiferForest);
    assert_eq!(determine_terrestrial_biome(500, 600, 500, 100, false), BiomeType::TemperateDeciduousForest);
    assert_eq!(determine_terrestrial_biome(500, 800, 500, 100, false), BiomeType::TemperateRainforest);
    assert_eq!(determine_terrestrial_biome(900, 300, 500, 100, false), BiomeType::TropicalGrasslandSavanna);
}

#[test]
fn classifier_is_total_over_a_lattice() {
    let ocean_and_water = [BiomeType::Ocean, BiomeType::Lake, BiomeType::River];
    for t in (0..=1000).step_by(50) {
        for p in (0..=1000).step_by(50) {
            for d in (0..=1000).step_by(100) {
                for a in [1, 200, 401, 601, 1000] {
                    for coastal in [false, true] {
                        let b = determine_terrestrial_biome(t, p, d, a, coastal);
                        assert!(!ocean_and_water.contains(&b));
                    }
                }
            }
        }
    }
}

#[test]
fn ocean_exactly_at_or_below_sea() {
    let e = vec![-10, 0, 10];
    let v = vec![500; 3];
    let b = assign_biomes(&e, 0, &v, &v, &v, &vec![false; 3]);
    assert_eq!(b[0], BiomeType::Ocean);
    assert_eq!(b[1], BiomeType::Ocean);
    assert_eq!(b[2], BiomeType::TemperateConiferForest);
}

#[test]
fn fertility_values() {
    assert_eq!(fertility_of(BiomeType::TemperateGrassland, true, GeologyType::Sedimentary), 1000);
    assert_eq!(fertility_of(BiomeType::TaigaBorealForest, false, GeologyType::Granite), 300);
    assert_eq!(fertility_of(BiomeType::HotDesert, true, GeologyType::Volcanic), 800);
    assert_eq!(fertility_of(BiomeType::TropicalRainforest, false, GeologyType::Limestone), 700);
}

#[test]
fn seven_cell_depression_is_a_lake_candidate() {
    let g = HexGrid::new(1);
    let c = g.find(HexCoord::new(0, 0)).unwrap();
    let e: Vec<i64> = (0..7).map(|i| if i == c { 100 } else { 300 }).collect();
    let flow = flow_directions(&g, &e, 0);
    let inward = (0..7).filter(|&i| flow[i].map(|(_, t)| t == c).unwrap_or(false)).count();
    assert!(inward >= 2);
    assert_eq!(lake_candidate_score(&g, &e, 0, &flow, c), Some(1200 / 6 + 600));
    for i in 0..7 {
        if i != c {
            assert_eq!(lake_candidate_score(&g, &e, 0, &flow, i), None);
        }
    }
    let ranked = rank_lake_candidates(&g, &e, 0, &flow);
    assert_eq!(ranked, vec![(800, c)]);
    assert_eq!(place_lakes(&g, &ranked), vec![c]);
    assert_eq!(lake_candidate_score(&g, &e, 100, &flow, c), None);
}

#[test]
fn lakes_keep_their_spacing() {
    let g = HexGrid::new(10);
    let a = g.find(HexCoord::new(0, 0)).unwrap();
    let b = g.find(HexCoord::new(3, 0)).unwrap();
    let far = g.find(HexCoord::new(-7, 0)).unwrap();
    let ranked = vec![(900, a), (800, b), (700, far)];
    assert_eq!(place_lakes(&g, &ranked), vec![a, far]);
    let many: Vec<(i64, usize)> = (0..40).map(|k| (1000 - k as i64, (k * 7) % g.len())).collect();
    assert!(place_lakes(&g, &many).len() <= 25);
}

#[test]
fn resources_by_coordinate_hash() {
    assert_eq!(generate_resource(HexCoord::new(2, 1), 20, 800), ResourceType::Cattle.code());
    assert_eq!(generate_resource(HexCoord::new(2, 1), 20, 700), 0);
    assert_eq!(generate_resource(HexCoord::new(1, 0), 50, 701), ResourceType::Gems.code());
    assert_eq!(biome_resource(HexCoord::new(1, 0), BiomeType::AlpineTundra, 800), ResourceType::Stone);
    assert_eq!(biome_resource(HexCoord::new(-2, -1), BiomeType::TemperateGrassland, 800), ResourceType::Cattle);
    assert_eq!(biome_resource(HexCoord::new(5, 5), BiomeType::Wetland, 900), ResourceType::Stone);
    assert_eq!(biome_resource(HexCoord::new(5, 5), BiomeType::Wetland, 100), ResourceType::NoResource);
    assert_eq!(ResourceType::for_biome(0), vec![ResourceType::Fish]);
    assert_eq!(ResourceType::for_biome(62), vec![ResourceType::Fish, ResourceType::Cattle]);
    assert_eq!(ResourceType::from_u8(12), ResourceType::Cattle);
    assert_eq!(ResourceType::from_u8(0), ResourceType::NoResource);
    assert_eq!(ResourceType::Gold.symbol(), "$");
    assert_eq!(ResourceType::NoResource.symbol(), "");
    for v in 0..=16u8 {
        assert_eq!(ResourceType::from_u8(v).code(), v);
    }
}

#[test]
fn multipliers_scale_before_the_clamp() {
    let g = HexGrid::new(1);
    let c = g.find(HexCoord::new(0, 0)).unwrap();
    let sea_cells = vec![-500; 7];
    let near = vec![0; 7];
    let loud = vec![1000; 7];
    let p = precipitations(&g, &sea_cells, 0, &near, &loud, 3000, 900);
    assert_eq!(p[c], 1000);
    let low = vec![10; 7];
    let far = vec![20; 7];
    let t = temperatures(&g, &low, 0, &far, &loud, 500);
    assert_eq!(t[c], 557);
}

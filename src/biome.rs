//! Biome classification and soil fertility.
use vstd::prelude::*;
use crate::terrain::{BiomeType, GeologyType};

verus! {

/// Biome of a land cell from temperature, precipitation, drainage, height
/// above the sea and coastal position: high-altitude overrides, then wetland
/// overrides, then a temperature-banded, precipitation-banded table.
pub open spec fn classify(temp: int, precip: int, drainage: int, above_sea: int, coastal: bool) -> BiomeType {
    if above_sea > 600 {
        BiomeType::AlpineTundra
    } else if above_sea > 400 && temp < 600 {
        BiomeType::MontaneForest
    } else if drainage < 300 && precip > 600 && coastal {
        if temp > 700 {
            BiomeType::Mangrove
        } else {
            BiomeType::SaltMarsh
        }
    } else if drainage < 400 && precip > 700 {
        BiomeType::Wetland
    } else if temp < 200 {
        if precip > 400 {
            BiomeType::TundraWet
        } else {
            BiomeType::TundraBarren
        }
    } else if temp < 400 {
        if precip > 200 {
            BiomeType::TaigaBorealForest
        } else {
            BiomeType::ColdDesert
        }
    } else if temp < 600 {
        if precip > 700 {
            BiomeType::TemperateRainforest
        } else if precip > 500 {
            BiomeType::TemperateDeciduousForest
        } else if precip > 300 {
            BiomeType::TemperateConiferForest
        } else if precip > 150 {
            BiomeType::TemperateGrassland
        } else {
            BiomeType::ColdDesert
        }
    } else if temp < 800 {
        if precip > 700 {
            BiomeType::TropicalSeasonalForest
        } else if precip > 500 {
            BiomeType::TemperateDeciduousForest
        } else if precip > 300 {
            BiomeType::TemperateGrassland
        } else if precip > 150 {
            BiomeType::Shrubland
        } else {
            BiomeType::HotDesert
        }
    } else {
        if precip > 700 {
            BiomeType::TropicalRainforest
        } else if precip > 400 {
            BiomeType::TropicalSeasonalForest
        } else if precip > 200 {
            BiomeType::TropicalGrasslandSavanna
        } else if precip > 100 {
            BiomeType::Shrubland
        } else {
            BiomeType::HotDesert
        }
    }
}

/// A biome that the land classification can produce.
pub open spec fn is_land_biome(b: BiomeType) -> bool {
    !(b == BiomeType::Ocean || b == BiomeType::Lake || b == BiomeType::River)
}

/// Classifies a land cell.
pub fn determine_terrestrial_biome(
    temp: i64,
    precip: i64,
    drainage: i64,
    above_sea: i64,
    coastal: bool,
) -> (b: BiomeType)
    ensures
        b == classify(temp as int, precip as int, drainage as int, above_sea as int, coastal),
{
    if above_sea > 600 {
        return BiomeType::AlpineTundra;
    } else if above_sea > 400 && temp < 600 {
        return BiomeType::MontaneForest;
    }
    if drainage < 300 && precip > 600 && coastal {
        return if temp > 700 {
            BiomeType::Mangrove
        } else {
            BiomeType::SaltMarsh
        };
    } else if drainage < 400 && precip > 700 {
        return BiomeType::Wetland;
    }
    if temp < 200 {
        if precip > 400 {
            BiomeType::TundraWet
        } else {
            BiomeType::TundraBarren
        }
    } else if temp < 400 {
        if precip > 200 {
            BiomeType::TaigaBorealForest
        } else {
            BiomeType::ColdDesert
        }
    } else if temp < 600 {
        if precip > 700 {
            BiomeType::TemperateRainforest
        } else if precip > 500 {
            BiomeType::TemperateDeciduousForest
        } else if precip > 300 {
            BiomeType::TemperateConiferForest
        } else if precip > 150 {
            BiomeType::TemperateGrassland
        } else {
            BiomeType::ColdDesert
        }
    } else if temp < 800 {
        if precip > 700 {
            BiomeType::TropicalSeasonalForest
        } else if precip > 500 {
            BiomeType::TemperateDeciduousForest
        } else if precip > 300 {
            BiomeType::TemperateGrassland
        } else if precip > 150 {
            BiomeType::Shrubland
        } else {
            BiomeType::HotDesert
        }
    } else {
        if precip > 700 {
            BiomeType::TropicalRainforest
        } else if precip > 400 {
            BiomeType::TropicalSeasonalForest
        } else if precip > 200 {
            BiomeType::TropicalGrasslandSavanna
        } else if precip > 100 {
            BiomeType::Shrubland
        } else {
            BiomeType::HotDesert
        }
    }
}

/// The classifier is total: every combination of inputs in their ranges
/// yields one biome (a spec function has exactly one value), and that biome
/// is a land biome.
pub proof fn lemma_classifier_total(
    temp: int,
    precip: int,
    drainage: int,
    above_sea: int,
    coastal: bool,
)
    requires
        0 <= temp <= 1000,
        0 <= precip <= 1000,
        0 <= drainage <= 1000,
        0 < above_sea,
    ensures
        is_land_biome(classify(temp, precip, drainage, above_sea, coastal)),
{
}

/// Biome of cell `i`: ocean at or below the sea, otherwise classified.
pub open spec fn cell_biome(
    elev: int,
    sea: int,
    temp: int,
    precip: int,
    drainage: int,
    coastal: bool,
) -> BiomeType {
    if elev <= sea {
        BiomeType::Ocean
    } else {
        classify(temp, precip, drainage, elev - sea, coastal)
    }
}

/// Assigns a biome to every cell.
pub fn assign_biomes(
    e: &Vec<i64>,
    sea: i64,
    temp: &Vec<i64>,
    precip: &Vec<i64>,
    drainage: &Vec<i64>,
    coastal: &Vec<bool>,
) -> (b: Vec<BiomeType>)
    requires
        temp@.len() == e@.len(),
        precip@.len() == e@.len(),
        drainage@.len() == e@.len(),
        coastal@.len() == e@.len(),
        -2000 <= sea <= 2000,
        forall|i: int| 0 <= i < e@.len() ==> -1000 <= #[trigger] e@[i] <= 1000,
    ensures
        b@.len() == e@.len(),
        forall|i: int|
            0 <= i < e@.len() ==> #[trigger] b@[i] == cell_biome(
                e@[i] as int,
                sea as int,
                temp@[i] as int,
                precip@[i] as int,
                drainage@[i] as int,
                coastal@[i],
            ),
{
    let mut b: Vec<BiomeType> = Vec::new();
    let mut i: usize = 0;
    while i < e.len()
        invariant
            temp@.len() == e@.len(),
            precip@.len() == e@.len(),
            drainage@.len() == e@.len(),
            coastal@.len() == e@.len(),
            -2000 <= sea <= 2000,
            forall|k: int| 0 <= k < e@.len() ==> -1000 <= #[trigger] e@[k] <= 1000,
            i <= e@.len(),
            b@.len() == i,
            forall|k: int|
                0 <= k < i ==> #[trigger] b@[k] == cell_biome(
                    e@[k] as int,
                    sea as int,
                    temp@[k] as int,
                    precip@[k] as int,
                    drainage@[k] as int,
                    coastal@[k],
                ),
        decreases e@.len() - i,
    {
        let v = if e[i] <= sea {
            BiomeType::Ocean
        } else {
            determine_terrestrial_biome(temp[i], precip[i], drainage[i], e[i] - sea, coastal[i])
        };
        let ghost old_b = b@;
        b.push(v);
        assert(forall|k: int| 0 <= k < i ==> b@[k] == old_b[k]);
        i = i + 1;
    }
    b
}

/// Agricultural potential of each biome.
pub open spec fn biome_fertility(b: BiomeType) -> int {
    match b {
        BiomeType::TropicalRainforest => 600,
        BiomeType::TropicalSeasonalForest => 800,
        BiomeType::TropicalGrasslandSavanna => 900,
        BiomeType::TemperateGrassland => 1000,
        BiomeType::TemperateDeciduousForest => 700,
        BiomeType::TemperateConiferForest => 400,
        BiomeType::TaigaBorealForest => 300,
        BiomeType::Wetland => 800,
        _ => 200,
    }
}

/// Fertility added by the underlying rock.
pub open spec fn geology_fertility(g: GeologyType) -> int {
    match g {
        GeologyType::Sedimentary => 200,
        GeologyType::Limestone => 100,
        GeologyType::Volcanic => 300,
        _ => 0,
    }
}

/// Soil fertility: biome base, plus 0.3 on a river, plus the rock's share, capped at 1.
pub open spec fn soil_fertility(b: BiomeType, river: bool, g: GeologyType) -> int {
    let v = biome_fertility(b) + (if river {
        300int
    } else {
        0
    }) + geology_fertility(g);
    if v < 1000 {
        v
    } else {
        1000
    }
}

/// Computes `soil_fertility`.
pub fn fertility_of(b: BiomeType, river: bool, g: GeologyType) -> (f: i64)
    ensures
        f == soil_fertility(b, river, g),
        0 <= f <= 1000,
{
    let base: i64 = match b {
        BiomeType::TropicalRainforest => 600,
        BiomeType::TropicalSeasonalForest => 800,
        BiomeType::TropicalGrasslandSavanna => 900,
        BiomeType::TemperateGrassland => 1000,
        BiomeType::TemperateDeciduousForest => 700,
        BiomeType::TemperateConiferForest => 400,
        BiomeType::TaigaBorealForest => 300,
        BiomeType::Wetland => 800,
        _ => 200,
    };
    let bonus: i64 = if river {
        300
    } else {
        0
    };
    let rock: i64 = match g {
        GeologyType::Sedimentary => 200,
        GeologyType::Limestone => 100,
        GeologyType::Volcanic => 300,
        _ => 0,
    };
    let v = base + bonus + rock;
    if v < 1000 {
        v
    } else {
        1000
    }
}

} // verus!

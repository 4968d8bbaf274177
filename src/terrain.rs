//! Categories that the generator assigns to cells: geology, biome, and
//! strategic feature, with their integer codes.
use vstd::prelude::*;

verus! {

/// Rock formation underlying a cell.
#[derive(Clone, Copy, Debug, PartialEq, Eq, Structural)]
pub enum GeologyType {
    OceanicCrust,
    ContinentalShelf,
    Sedimentary,
    Igneous,
    Metamorphic,
    Volcanic,
    Limestone,
    Sandstone,
    Granite,
    Basalt,
}

impl GeologyType {
    pub open spec fn spec_from_u8(v: u8) -> GeologyType {
        if v == 0 {
            GeologyType::OceanicCrust
        } else if v == 1 {
            GeologyType::ContinentalShelf
        } else if v == 3 {
            GeologyType::Igneous
        } else if v == 4 {
            GeologyType::Metamorphic
        } else if v == 5 {
            GeologyType::Volcanic
        } else if v == 6 {
            GeologyType::Limestone
        } else if v == 7 {
            GeologyType::Sandstone
        } else if v == 8 {
            GeologyType::Granite
        } else if v == 9 {
            GeologyType::Basalt
        } else {
            GeologyType::Sedimentary
        }
    }

    /// The geology with code `v`; unknown codes read as sedimentary rock.
    pub fn from_u8(v: u8) -> (g: GeologyType)
        ensures
            g == GeologyType::spec_from_u8(v),
    {
        match v {
            0 => GeologyType::OceanicCrust,
            1 => GeologyType::ContinentalShelf,
            3 => GeologyType::Igneous,
            4 => GeologyType::Metamorphic,
            5 => GeologyType::Volcanic,
            6 => GeologyType::Limestone,
            7 => GeologyType::Sandstone,
            8 => GeologyType::Granite,
            9 => GeologyType::Basalt,
            _ => GeologyType::Sedimentary,
        }
    }

    /// The integer code of this geology.
    pub fn code(self) -> (v: u8)
        ensures
            GeologyType::spec_from_u8(v) == self,
            v <= 9,
    {
        match self {
            GeologyType::OceanicCrust => 0,
            GeologyType::ContinentalShelf => 1,
            GeologyType::Sedimentary => 2,
            GeologyType::Igneous => 3,
            GeologyType::Metamorphic => 4,
            GeologyType::Volcanic => 5,
            GeologyType::Limestone => 6,
            GeologyType::Sandstone => 7,
            GeologyType::Granite => 8,
            GeologyType::Basalt => 9,
        }
    }
}

/// Climate and terrain category of a cell.
#[derive(Clone, Copy, Debug, PartialEq, Eq, Structural)]
pub enum BiomeType {
    Ocean,
    Lake,
    River,
    TundraBarren,
    TundraWet,
    TaigaBorealForest,
    TemperateGrassland,
    TemperateDeciduousForest,
    TemperateConiferForest,
    TemperateRainforest,
    TropicalGrasslandSavanna,
    TropicalSeasonalForest,
    TropicalRainforest,
    ColdDesert,
    HotDesert,
    Shrubland,
    AlpineTundra,
    MontaneForest,
    Mangrove,
    SaltMarsh,
    Wetland,
}

impl BiomeType {
    pub open spec fn spec_from_u8(v: u8) -> BiomeType {
        if v == 0 {
            BiomeType::Ocean
        } else if v == 1 {
            BiomeType::Lake
        } else if v == 2 {
            BiomeType::River
        } else if v == 10 {
            BiomeType::TundraBarren
        } else if v == 11 {
            BiomeType::TundraWet
        } else if v == 12 {
            BiomeType::TaigaBorealForest
        } else if v == 21 {
            BiomeType::TemperateDeciduousForest
        } else if v == 22 {
            BiomeType::TemperateConiferForest
        } else if v == 23 {
            BiomeType::TemperateRainforest
        } else if v == 30 {
            BiomeType::TropicalGrasslandSavanna
        } else if v == 31 {
            BiomeType::TropicalSeasonalForest
        } else if v == 32 {
            BiomeType::TropicalRainforest
        } else if v == 40 {
            BiomeType::ColdDesert
        } else if v == 41 {
            BiomeType::HotDesert
        } else if v == 42 {
            BiomeType::Shrubland
        } else if v == 50 {
            BiomeType::AlpineTundra
        } else if v == 51 {
            BiomeType::MontaneForest
        } else if v == 60 {
            BiomeType::Mangrove
        } else if v == 61 {
            BiomeType::SaltMarsh
        } else if v == 62 {
            BiomeType::Wetland
        } else {
            BiomeType::TemperateGrassland
        }
    }

    /// The biome with code `v`; unknown codes read as temperate grassland.
    pub fn from_u8(v: u8) -> (b: BiomeType)
        ensures
            b == BiomeType::spec_from_u8(v),
    {
        match v {
            0 => BiomeType::Ocean,
            1 => BiomeType::Lake,
            2 => BiomeType::River,
            10 => BiomeType::TundraBarren,
            11 => BiomeType::TundraWet,
            12 => BiomeType::TaigaBorealForest,
            21 => BiomeType::TemperateDeciduousForest,
            22 => BiomeType::TemperateConiferForest,
            23 => BiomeType::TemperateRainforest,
            30 => BiomeType::TropicalGrasslandSavanna,
            31 => BiomeType::TropicalSeasonalForest,
            32 => BiomeType::TropicalRainforest,
            40 => BiomeType::ColdDesert,
            41 => BiomeType::HotDesert,
            42 => BiomeType::Shrubland,
            50 => BiomeType::AlpineTundra,
            51 => BiomeType::MontaneForest,
            60 => BiomeType::Mangrove,
            61 => BiomeType::SaltMarsh,
            62 => BiomeType::Wetland,
            _ => BiomeType::TemperateGrassland,
        }
    }

    /// The integer code of this biome.
    pub fn code(self) -> (v: u8)
        ensures
            BiomeType::spec_from_u8(v) == self,
    {
        match self {
            BiomeType::Ocean => 0,
            BiomeType::Lake => 1,
            BiomeType::River => 2,
            BiomeType::TundraBarren => 10,
            BiomeType::TundraWet => 11,
            BiomeType::TaigaBorealForest => 12,
            BiomeType::TemperateGrassland => 20,
            BiomeType::TemperateDeciduousForest => 21,
            BiomeType::TemperateConiferForest => 22,
            BiomeType::TemperateRainforest => 23,
            BiomeType::TropicalGrasslandSavanna => 30,
            BiomeType::TropicalSeasonalForest => 31,
            BiomeType::TropicalRainforest => 32,
            BiomeType::ColdDesert => 40,
            BiomeType::HotDesert => 41,
            BiomeType::Shrubland => 42,
            BiomeType::AlpineTundra => 50,
            BiomeType::MontaneForest => 51,
            BiomeType::Mangrove => 60,
            BiomeType::SaltMarsh => 61,
            BiomeType::Wetland => 62,
        }
    }
}

/// Named geographic formation of interest to downstream gameplay.
#[derive(Clone, Copy, Debug, PartialEq, Eq, Structural)]
pub enum StrategicFeature {
    NoFeature,
    RiverDelta,
    Peninsula,
    Cape,
    Strait,
    NaturalHarbor,
    MountainPass,
    Canyon,
    IslandChain,
    Plateau,
    Isthmus,
    Bay,
    Fjord,
    DesertOasis,
    RiverFord,
    HighlandFortress,
}

impl StrategicFeature {
    pub open spec fn spec_from_u8(v: u8) -> StrategicFeature {
        if v == 1 {
            StrategicFeature::RiverDelta
        } else if v == 2 {
            StrategicFeature::Peninsula
        } else if v == 3 {
            StrategicFeature::Cape
        } else if v == 4 {
            StrategicFeature::Strait
        } else if v == 5 {
            StrategicFeature::NaturalHarbor
        } else if v == 6 {
            StrategicFeature::MountainPass
        } else if v == 7 {
            StrategicFeature::Canyon
        } else if v == 8 {
            StrategicFeature::IslandChain
        } else if v == 9 {
            StrategicFeature::Plateau
        } else if v == 10 {
            StrategicFeature::Isthmus
        } else if v == 11 {
            StrategicFeature::Bay
        } else if v == 12 {
            StrategicFeature::Fjord
        } else if v == 13 {
            StrategicFeature::DesertOasis
        } else if v == 14 {
            StrategicFeature::RiverFord
        } else if v == 15 {
            StrategicFeature::HighlandFortress
        } else {
            StrategicFeature::NoFeature
        }
    }

    /// The feature with code `v`; unknown codes read as no feature.
    pub fn from_u8(v: u8) -> (f: StrategicFeature)
        ensures
            f == StrategicFeature::spec_from_u8(v),
    {
        match v {
            1 => StrategicFeature::RiverDelta,
            2 => StrategicFeature::Peninsula,
            3 => StrategicFeature::Cape,
            4 => StrategicFeature::Strait,
            5 => StrategicFeature::NaturalHarbor,
            6 => StrategicFeature::MountainPass,
            7 => StrategicFeature::Canyon,
            8 => StrategicFeature::IslandChain,
            9 => StrategicFeature::Plateau,
            10 => StrategicFeature::Isthmus,
            11 => StrategicFeature::Bay,
            12 => StrategicFeature::Fjord,
            13 => StrategicFeature::DesertOasis,
            14 => StrategicFeature::RiverFord,
            15 => StrategicFeature::HighlandFortress,
            _ => StrategicFeature::NoFeature,
        }
    }

    /// Display name of each feature; empty for no feature.
    pub open spec fn spec_name(self) -> Seq<char> {
        match self {
            StrategicFeature::NoFeature => ""@,
            StrategicFeature::RiverDelta => "River Delta"@,
            StrategicFeature::Peninsula => "Peninsula"@,
            StrategicFeature::Cape => "Cape"@,
            StrategicFeature::Strait => "Strait"@,
            StrategicFeature::NaturalHarbor => "Natural Harbor"@,
            StrategicFeature::MountainPass => "Mountain Pass"@,
            StrategicFeature::Canyon => "Canyon"@,
            StrategicFeature::IslandChain => "Island Chain"@,
            StrategicFeature::Plateau => "Plateau"@,
            StrategicFeature::Isthmus => "Isthmus"@,
            StrategicFeature::Bay => "Bay"@,
            StrategicFeature::Fjord => "Fjord"@,
            StrategicFeature::DesertOasis => "Desert Oasis"@,
            StrategicFeature::RiverFord => "River Ford"@,
            StrategicFeature::HighlandFortress => "Highland Fortress"@,
        }
    }

    /// Display name; empty for no feature.
    pub fn name(self) -> (s: &'static str)
        ensures
            s@ == self.spec_name(),
            self == StrategicFeature::NoFeature <==> s@.len() == 0,
    {
        proof {
            reveal_strlit("");
            reveal_strlit("River Delta");
            reveal_strlit("Peninsula");
            reveal_strlit("Cape");
            reveal_strlit("Strait");
            reveal_strlit("Natural Harbor");
            reveal_strlit("Mountain Pass");
            reveal_strlit("Canyon");
            reveal_strlit("Island Chain");
            reveal_strlit("Plateau");
            reveal_strlit("Isthmus");
            reveal_strlit("Bay");
            reveal_strlit("Fjord");
            reveal_strlit("Desert Oasis");
            reveal_strlit("River Ford");
            reveal_strlit("Highland Fortress");
        }
        match self {
            StrategicFeature::NoFeature => "",
            StrategicFeature::RiverDelta => "River Delta",
            StrategicFeature::Peninsula => "Peninsula",
            StrategicFeature::Cape => "Cape",
            StrategicFeature::Strait => "Strait",
            StrategicFeature::NaturalHarbor => "Natural Harbor",
            StrategicFeature::MountainPass => "Mountain Pass",
            StrategicFeature::Canyon => "Canyon",
            StrategicFeature::IslandChain => "Island Chain",
            StrategicFeature::Plateau => "Plateau",
            StrategicFeature::Isthmus => "Isthmus",
            StrategicFeature::Bay => "Bay",
            StrategicFeature::Fjord => "Fjord",
            StrategicFeature::DesertOasis => "Desert Oasis",
            StrategicFeature::RiverFord => "River Ford",
            StrategicFeature::HighlandFortress => "Highland Fortress",
        }
    }
}

} // verus!

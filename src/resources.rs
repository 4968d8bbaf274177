//! Resources: the categories, the lists that suit each biome, and their
//! deterministic placement.
use vstd::prelude::*;
use crate::hex::{abs, coord_ok, HexCoord};
use crate::terrain::BiomeType;

verus! {

/// A resource a cell may hold.
#[derive(Clone, Copy, Debug, PartialEq, Eq, Structural)]
pub enum ResourceType {
    NoResource,
    Gold,
    Iron,
    Wheat,
    Fish,
    Stone,
    Wood,
    Oil,
    Horses,
    Gems,
    Copper,
    Coal,
    Cattle,
    Spices,
    Silk,
    Wine,
    Salt,
}

/// A coordinate-dependent sample must exceed this for a cell to hold a resource.
pub const RESOURCE_GATE: i64 = 700;

impl ResourceType {
    pub open spec fn spec_from_u8(v: u8) -> ResourceType {
        if v == 1 {
            ResourceType::Gold
        } else if v == 2 {
            ResourceType::Iron
        } else if v == 3 {
            ResourceType::Wheat
        } else if v == 4 {
            ResourceType::Fish
        } else if v == 5 {
            ResourceType::Stone
        } else if v == 6 {
            ResourceType::Wood
        } else if v == 7 {
            ResourceType::Oil
        } else if v == 8 {
            ResourceType::Horses
        } else if v == 9 {
            ResourceType::Gems
        } else if v == 10 {
            ResourceType::Copper
        } else if v == 11 {
            ResourceType::Coal
        } else if v == 12 {
            ResourceType::Cattle
        } else if v == 13 {
            ResourceType::Spices
        } else if v == 14 {
            ResourceType::Silk
        } else if v == 15 {
            ResourceType::Wine
        } else if v == 16 {
            ResourceType::Salt
        } else {
            ResourceType::NoResource
        }
    }

    /// The resource with code `v`; unknown codes read as no resource.
    pub fn from_u8(v: u8) -> (r: ResourceType)
        ensures
            r == ResourceType::spec_from_u8(v),
    {
        match v {
            1 => ResourceType::Gold,
            2 => ResourceType::Iron,
            3 => ResourceType::Wheat,
            4 => ResourceType::Fish,
            5 => ResourceType::Stone,
            6 => ResourceType::Wood,
            7 => ResourceType::Oil,
            8 => ResourceType::Horses,
            9 => ResourceType::Gems,
            10 => ResourceType::Copper,
            11 => ResourceType::Coal,
            12 => ResourceType::Cattle,
            13 => ResourceType::Spices,
            14 => ResourceType::Silk,
            15 => ResourceType::Wine,
            16 => ResourceType::Salt,
            _ => ResourceType::NoResource,
        }
    }

    /// The integer code of this resource (0 for none).
    pub fn code(self) -> (v: u8)
        ensures
            ResourceType::spec_from_u8(v) == self,
            v <= 16,
            v == 0 <==> self == ResourceType::NoResource,
    {
        match self {
            ResourceType::NoResource => 0,
            ResourceType::Gold => 1,
            ResourceType::Iron => 2,
            ResourceType::Wheat => 3,
            ResourceType::Fish => 4,
            ResourceType::Stone => 5,
            ResourceType::Wood => 6,
            ResourceType::Oil => 7,
            ResourceType::Horses => 8,
            ResourceType::Gems => 9,
            ResourceType::Copper => 10,
            ResourceType::Coal => 11,
            ResourceType::Cattle => 12,
            ResourceType::Spices => 13,
            ResourceType::Silk => 14,
            ResourceType::Wine => 15,
            ResourceType::Salt => 16,
        }
    }

    /// Map symbol of each resource; empty for no resource.
    pub open spec fn spec_symbol(self) -> Seq<char> {
        match self {
            ResourceType::NoResource => ""@,
            ResourceType::Gold => "$"@,
            ResourceType::Iron => "#"@,
            ResourceType::Wheat => "*"@,
            ResourceType::Fish => "~"@,
            ResourceType::Stone => "o"@,
            ResourceType::Wood => "T"@,
            ResourceType::Oil => "O"@,
            ResourceType::Horses => "H"@,
            ResourceType::Gems => "^"@,
            ResourceType::Copper => "c"@,
            ResourceType::Coal => "@"@,
            ResourceType::Cattle => "C"@,
            ResourceType::Spices => "s"@,
            ResourceType::Silk => "S"@,
            ResourceType::Wine => "w"@,
            ResourceType::Salt => "="@,
        }
    }

    /// Map symbol; empty for no resource.
    pub fn symbol(self) -> (s: &'static str)
        ensures
            s@ == self.spec_symbol(),
            self == ResourceType::NoResource <==> s@.len() == 0,
            self != ResourceType::NoResource ==> s@.len() == 1,
    {
        proof {
            reveal_strlit("");
            reveal_strlit("$");
            reveal_strlit("#");
            reveal_strlit("*");
            reveal_strlit("~");
            reveal_strlit("o");
            reveal_strlit("T");
            reveal_strlit("O");
            reveal_strlit("H");
            reveal_strlit("^");
            reveal_strlit("c");
            reveal_strlit("@");
            reveal_strlit("C");
            reveal_strlit("s");
            reveal_strlit("S");
            reveal_strlit("w");
            reveal_strlit("=");
        }
        match self {
            ResourceType::NoResource => "",
            ResourceType::Gold => "$",
            ResourceType::Iron => "#",
            ResourceType::Wheat => "*",
            ResourceType::Fish => "~",
            ResourceType::Stone => "o",
            ResourceType::Wood => "T",
            ResourceType::Oil => "O",
            ResourceType::Horses => "H",
            ResourceType::Gems => "^",
            ResourceType::Copper => "c",
            ResourceType::Coal => "@",
            ResourceType::Cattle => "C",
            ResourceType::Spices => "s",
            ResourceType::Silk => "S",
            ResourceType::Wine => "w",
            ResourceType::Salt => "=",
        }
    }

    /// Resources that can appear on each biome.
    pub open spec fn spec_for_biome(b: BiomeType) -> Seq<ResourceType> {
        match b {
            BiomeType::Ocean | BiomeType::Lake | BiomeType::River => seq![ResourceType::Fish],
            BiomeType::TemperateGrassland | BiomeType::TropicalGrasslandSavanna => seq![
                ResourceType::Wheat,
                ResourceType::Horses,
                ResourceType::Cattle,
            ],
            BiomeType::AlpineTundra | BiomeType::MontaneForest => seq![
                ResourceType::Gold,
                ResourceType::Gems,
                ResourceType::Stone,
                ResourceType::Iron,
            ],
            BiomeType::TemperateDeciduousForest | BiomeType::TemperateConiferForest
            | BiomeType::TaigaBorealForest => seq![
                ResourceType::Wood,
                ResourceType::Iron,
                ResourceType::Copper,
            ],
            BiomeType::TropicalRainforest | BiomeType::TropicalSeasonalForest => seq![
                ResourceType::Wood,
                ResourceType::Spices,
                ResourceType::Silk,
            ],
            BiomeType::HotDesert => seq![ResourceType::Oil, ResourceType::Gold, ResourceType::Gems],
            BiomeType::ColdDesert => seq![ResourceType::Oil, ResourceType::Iron, ResourceType::Coal],
            BiomeType::TundraBarren | BiomeType::TundraWet => seq![
                ResourceType::Oil,
                ResourceType::Iron,
            ],
            BiomeType::Shrubland => seq![ResourceType::Stone, ResourceType::Copper],
            BiomeType::TemperateRainforest => seq![ResourceType::Wood, ResourceType::Wine],
            BiomeType::Mangrove => seq![ResourceType::Fish, ResourceType::Wood],
            BiomeType::SaltMarsh => seq![ResourceType::Fish, ResourceType::Salt],
            BiomeType::Wetland => seq![ResourceType::Fish, ResourceType::Cattle],
        }
    }

    /// Resources that can appear on the biome with code `biome`.
    pub fn for_biome(biome: u8) -> (v: Vec<ResourceType>)
        ensures
            v@ == ResourceType::spec_for_biome(BiomeType::spec_from_u8(biome)),
    {
        match BiomeType::from_u8(biome) {
            BiomeType::Ocean | BiomeType::Lake | BiomeType::River => vec![ResourceType::Fish],
            BiomeType::TemperateGrassland | BiomeType::TropicalGrasslandSavanna => vec![
                ResourceType::Wheat,
                ResourceType::Horses,
                ResourceType::Cattle,
            ],
            BiomeType::AlpineTundra | BiomeType::MontaneForest => vec![
                ResourceType::Gold,
                ResourceType::Gems,
                ResourceType::Stone,
                ResourceType::Iron,
            ],
            BiomeType::TemperateDeciduousForest | BiomeType::TemperateConiferForest
            | BiomeType::TaigaBorealForest => vec![
                ResourceType::Wood,
                ResourceType::Iron,
                ResourceType::Copper,
            ],
            BiomeType::TropicalRainforest | BiomeType::TropicalSeasonalForest => vec![
                ResourceType::Wood,
                ResourceType::Spices,
                ResourceType::Silk,
            ],
            BiomeType::HotDesert => vec![ResourceType::Oil, ResourceType::Gold, ResourceType::Gems],
            BiomeType::ColdDesert => vec![ResourceType::Oil, ResourceType::Iron, ResourceType::Coal],
            BiomeType::TundraBarren | BiomeType::TundraWet => vec![
                ResourceType::Oil,
                ResourceType::Iron,
            ],
            BiomeType::Shrubland => vec![ResourceType::Stone, ResourceType::Copper],
            BiomeType::TemperateRainforest => vec![ResourceType::Wood, ResourceType::Wine],
            BiomeType::Mangrove => vec![ResourceType::Fish, ResourceType::Wood],
            BiomeType::SaltMarsh => vec![ResourceType::Fish, ResourceType::Salt],
            BiomeType::Wetland => vec![ResourceType::Fish, ResourceType::Cattle],
        }
    }
}

/// Resources that the world generator places on each biome.
pub open spec fn generator_resources(b: BiomeType) -> Seq<ResourceType> {
    match b {
        BiomeType::Ocean | BiomeType::Lake | BiomeType::River => seq![ResourceType::Fish],
        BiomeType::TemperateGrassland | BiomeType::TropicalGrasslandSavanna => seq![
            ResourceType::Wheat,
            ResourceType::Horses,
            ResourceType::Cattle,
        ],
        BiomeType::AlpineTundra | BiomeType::MontaneForest => seq![
            ResourceType::Iron,
            ResourceType::Stone,
            ResourceType::Copper,
            ResourceType::Coal,
        ],
        BiomeType::TemperateDeciduousForest | BiomeType::TemperateConiferForest
        | BiomeType::TaigaBorealForest | BiomeType::TropicalRainforest
        | BiomeType::TropicalSeasonalForest => seq![
            ResourceType::Wood,
            ResourceType::Spices,
            ResourceType::Silk,
        ],
        BiomeType::HotDesert | BiomeType::ColdDesert => seq![
            ResourceType::Oil,
            ResourceType::Gold,
            ResourceType::Gems,
        ],
        BiomeType::TundraBarren | BiomeType::TundraWet => seq![ResourceType::Oil, ResourceType::Iron],
        BiomeType::Mangrove | BiomeType::SaltMarsh => seq![ResourceType::Fish, ResourceType::Salt],
        _ => seq![ResourceType::Stone],
    }
}

fn generator_resource_list(b: BiomeType) -> (v: Vec<ResourceType>)
    ensures
        v@ == generator_resources(b),
{
    match b {
        BiomeType::Ocean | BiomeType::Lake | BiomeType::River => vec![ResourceType::Fish],
        BiomeType::TemperateGrassland | BiomeType::TropicalGrasslandSavanna => vec![
            ResourceType::Wheat,
            ResourceType::Horses,
            ResourceType::Cattle,
        ],
        BiomeType::AlpineTundra | BiomeType::MontaneForest => vec![
            ResourceType::Iron,
            ResourceType::Stone,
            ResourceType::Copper,
            ResourceType::Coal,
        ],
        BiomeType::TemperateDeciduousForest | BiomeType::TemperateConiferForest
        | BiomeType::TaigaBorealForest | BiomeType::TropicalRainforest
        | BiomeType::TropicalSeasonalForest => vec![
            ResourceType::Wood,
            ResourceType::Spices,
            ResourceType::Silk,
        ],
        BiomeType::HotDesert | BiomeType::ColdDesert => vec![
            ResourceType::Oil,
            ResourceType::Gold,
            ResourceType::Gems,
        ],
        BiomeType::TundraBarren | BiomeType::TundraWet => vec![ResourceType::Oil, ResourceType::Iron],
        BiomeType::Mangrove | BiomeType::SaltMarsh => vec![ResourceType::Fish, ResourceType::Salt],
        _ => vec![ResourceType::Stone],
    }
}

/// Resource picked for cell `c` from a non-empty list: indexed by an additive
/// hash of the absolute coordinates, so the same cell always gets the same one.
pub open spec fn pick(list: Seq<ResourceType>, c: HexCoord) -> ResourceType {
    list[(abs(c.q as int) + abs(c.r as int) * 3) % (list.len() as int)]
}

/// Resource of a cell from a list, given its gate sample.
pub open spec fn gated_pick(list: Seq<ResourceType>, c: HexCoord, chance: int) -> ResourceType {
    if chance > RESOURCE_GATE && list.len() > 0 {
        pick(list, c)
    } else {
        ResourceType::NoResource
    }
}

fn pick_exec(list: &Vec<ResourceType>, c: HexCoord) -> (r: ResourceType)
    requires
        list@.len() > 0,
        coord_ok(c),
    ensures
        r == pick(list@, c),
{
    let aq: usize = if c.q < 0 {
        (-c.q) as usize
    } else {
        c.q as usize
    };
    let ar: usize = if c.r < 0 {
        (-c.r) as usize
    } else {
        c.r as usize
    };
    list[(aq + ar * 3) % list.len()]
}

/// Resource code of a cell with biome code `biome` and gate sample `chance`
/// (thousandths), from the lists of `for_biome`.
pub fn generate_resource(hex_coord: HexCoord, biome: u8, chance: i64) -> (r: u8)
    requires
        coord_ok(hex_coord),
    ensures
        ResourceType::spec_from_u8(r) == gated_pick(
            ResourceType::spec_for_biome(BiomeType::spec_from_u8(biome)),
            hex_coord,
            chance as int,
        ),
{
    if chance > RESOURCE_GATE {
        let possible = ResourceType::for_biome(biome);
        if possible.len() > 0 {
            return pick_exec(&possible, hex_coord).code();
        }
    }
    ResourceType::NoResource.code()
}

/// Resource of a cell with the given biome and gate sample, from the world
/// generator's lists.
pub fn biome_resource(c: HexCoord, biome: BiomeType, chance: i64) -> (r: ResourceType)
    requires
        coord_ok(c),
    ensures
        r == gated_pick(generator_resources(biome), c, chance as int),
{
    if chance > RESOURCE_GATE {
        let possible = generator_resource_list(biome);
        if possible.len() > 0 {
            return pick_exec(&possible, c);
        }
    }
    ResourceType::NoResource
}

} // verus!

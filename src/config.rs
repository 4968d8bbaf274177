//! The world-shape descriptor of one generation run, its named presets, and
//! the ranges within which a run accepts it.
use vstd::prelude::*;

verus! {

/// Shape of the world to generate. Continuous settings are fixed-point
/// thousandths (`1000` is `1.0`).
#[derive(Clone, Copy, Debug, PartialEq, Eq, Structural)]
pub struct WorldGenConfig {
    /// Number of major landmasses (1 to 8).
    pub continent_count: usize,
    /// Scales the reach of each continent's influence (0.1 to 3.0).
    pub continent_size: i64,
    /// Spacing between continents (0.1 to 3.0).
    pub continent_separation: i64,
    /// How grouped continents are (0.0 to 1.0).
    pub continent_clustering: i64,
    /// Desired share of land cells (0.0 to 1.0).
    pub target_land_percentage: i64,
    /// Largest random shift of the sea level (0.0 to 0.3).
    pub sea_level_variance: i64,
    /// Frequency of plate-boundary features (0.1 to 3.0).
    pub tectonic_activity: i64,
    /// Strength of volcanic island formation (0.0 to 2.0).
    pub volcanic_activity: i64,
    /// Overall warmth multiplier (0.0 to 2.0).
    pub global_temperature: i64,
    /// Overall wetness multiplier (0.0 to 2.0).
    pub rainfall_multiplier: i64,
    /// Spread of climate zones (0.0 to 3.0).
    pub climate_extremeness: i64,
    /// Frequency of isolated islands (0.0 to 3.0).
    pub island_frequency: i64,
    /// Number of island-chain regions (0 to 4).
    pub archipelago_zones: usize,
    /// Whether large enclosed water bodies are wanted.
    pub inland_seas: bool,
}

/// Why a generation run was refused before it started.
#[derive(Clone, Copy, Debug, PartialEq, Eq, Structural)]
pub enum WorldGenError {
    /// The map radius is below 1 or above the largest radius a grid may have.
    RadiusOutOfRange,
    /// A configuration setting lies outside its documented range.
    ConfigOutOfRange,
    /// The noise samples do not hold one in-range value per cell and layer.
    SamplesMismatch,
    /// The random draws do not have the counts and ranges the configuration asks for.
    DrawsMismatch,
}

pub open spec fn in_range(x: i64, lo: int, hi: int) -> bool {
    lo <= x <= hi
}

impl WorldGenConfig {
    /// Every setting lies within its documented range.
    pub open spec fn valid(&self) -> bool {
        &&& 1 <= self.continent_count <= 8
        &&& in_range(self.continent_size, 100, 3000)
        &&& in_range(self.continent_separation, 100, 3000)
        &&& in_range(self.continent_clustering, 0, 1000)
        &&& in_range(self.target_land_percentage, 0, 1000)
        &&& in_range(self.sea_level_variance, 0, 300)
        &&& in_range(self.tectonic_activity, 100, 3000)
        &&& in_range(self.volcanic_activity, 0, 2000)
        &&& in_range(self.global_temperature, 0, 2000)
        &&& in_range(self.rainfall_multiplier, 0, 2000)
        &&& in_range(self.climate_extremeness, 0, 3000)
        &&& in_range(self.island_frequency, 0, 3000)
        &&& self.archipelago_zones <= 4
    }

    /// Accepts the configuration, or names the first class of problem.
    pub fn validate(&self) -> (r: Result<(), WorldGenError>)
        ensures
            r is Ok <==> self.valid(),
            r is Err ==> r == Err::<(), WorldGenError>(WorldGenError::ConfigOutOfRange),
    {
        if 1 <= self.continent_count && self.continent_count <= 8 && 100 <= self.continent_size
            && self.continent_size <= 3000 && 100 <= self.continent_separation
            && self.continent_separation <= 3000 && 0 <= self.continent_clustering
            && self.continent_clustering <= 1000 && 0 <= self.target_land_percentage
            && self.target_land_percentage <= 1000 && 0 <= self.sea_level_variance
            && self.sea_level_variance <= 300 && 100 <= self.tectonic_activity
            && self.tectonic_activity <= 3000 && 0 <= self.volcanic_activity
            && self.volcanic_activity <= 2000 && 0 <= self.global_temperature
            && self.global_temperature <= 2000 && 0 <= self.rainfall_multiplier
            && self.rainfall_multiplier <= 2000 && 0 <= self.climate_extremeness
            && self.climate_extremeness <= 3000 && 0 <= self.island_frequency
            && self.island_frequency <= 3000 && self.archipelago_zones <= 4 {
            Ok(())
        } else {
            Err(WorldGenError::ConfigOutOfRange)
        }
    }

    /// A single supercontinent.
    pub fn pangaea() -> (c: WorldGenConfig)
        ensures
            c.valid(),
            c == (WorldGenConfig {
                continent_count: 1,
                continent_size: 2500,
                continent_separation: 1000,
                continent_clustering: 0,
                target_land_percentage: 450,
                sea_level_variance: 100,
                tectonic_activity: 1000,
                volcanic_activity: 1000,
                global_temperature: 1000,
                rainfall_multiplier: 900,
                climate_extremeness: 1000,
                island_frequency: 300,
                archipelago_zones: 1,
                inland_seas: false,
            }),
    {
        WorldGenConfig {
            continent_count: 1,
            continent_size: 2500,
            continent_separation: 1000,
            continent_clustering: 0,
            target_land_percentage: 450,
            island_frequency: 300,
            ..WorldGenConfig::default()
        }
    }

    /// Two small continents and many island chains.
    pub fn archipelago_world() -> (c: WorldGenConfig)
        ensures
            c.valid(),
            c == (WorldGenConfig {
                continent_count: 2,
                continent_size: 600,
                continent_separation: 2000,
                continent_clustering: 200,
                target_land_percentage: 250,
                sea_level_variance: 100,
                tectonic_activity: 1000,
                volcanic_activity: 1800,
                global_temperature: 1000,
                rainfall_multiplier: 900,
                climate_extremeness: 1000,
                island_frequency: 2500,
                archipelago_zones: 4,
                inland_seas: false,
            }),
    {
        WorldGenConfig {
            continent_count: 2,
            continent_size: 600,
            continent_separation: 2000,
            continent_clustering: 200,
            target_land_percentage: 250,
            island_frequency: 2500,
            archipelago_zones: 4,
            volcanic_activity: 1800,
            ..WorldGenConfig::default()
        }
    }

    /// Many small, clustered continents.
    pub fn fragmented_continents() -> (c: WorldGenConfig)
        ensures
            c.valid(),
            c == (WorldGenConfig {
                continent_count: 7,
                continent_size: 700,
                continent_separation: 1500,
                continent_clustering: 800,
                target_land_percentage: 320,
                sea_level_variance: 100,
                tectonic_activity: 1000,
                volcanic_activity: 1000,
                global_temperature: 1000,
                rainfall_multiplier: 900,
                climate_extremeness: 1000,
                island_frequency: 1400,
                archipelago_zones: 1,
                inland_seas: false,
            }),
    {
        WorldGenConfig {
            continent_count: 7,
            continent_size: 700,
            continent_separation: 1500,
            continent_clustering: 800,
            target_land_percentage: 320,
            island_frequency: 1400,
            ..WorldGenConfig::default()
        }
    }

    /// Two large, widely separated continents.
    pub fn dual_supercontinents() -> (c: WorldGenConfig)
        ensures
            c.valid(),
            c == (WorldGenConfig {
                continent_count: 2,
                continent_size: 1800,
                continent_separation: 2500,
                continent_clustering: 100,
                target_land_percentage: 400,
                sea_level_variance: 100,
                tectonic_activity: 1000,
                volcanic_activity: 1000,
                global_temperature: 1000,
                rainfall_multiplier: 900,
                climate_extremeness: 1000,
                island_frequency: 1000,
                archipelago_zones: 1,
                inland_seas: true,
            }),
    {
        WorldGenConfig {
            continent_count: 2,
            continent_size: 1800,
            continent_separation: 2500,
            continent_clustering: 100,
            target_land_percentage: 400,
            inland_seas: true,
            ..WorldGenConfig::default()
        }
    }

    /// Four close continents around enclosed seas.
    pub fn mediterranean_world() -> (c: WorldGenConfig)
        ensures
            c.valid(),
            c == (WorldGenConfig {
                continent_count: 4,
                continent_size: 1200,
                continent_separation: 800,
                continent_clustering: 900,
                target_land_percentage: 420,
                sea_level_variance: 100,
                tectonic_activity: 1300,
                volcanic_activity: 1000,
                global_temperature: 1000,
                rainfall_multiplier: 900,
                climate_extremeness: 1000,
                island_frequency: 1000,
                archipelago_zones: 1,
                inland_seas: true,
            }),
    {
        WorldGenConfig {
            continent_count: 4,
            continent_size: 1200,
            continent_separation: 800,
            continent_clustering: 900,
            target_land_percentage: 420,
            inland_seas: true,
            tectonic_activity: 1300,
            ..WorldGenConfig::default()
        }
    }
}

/// The default configuration: four continents, 35% land.
pub open spec fn default_config() -> WorldGenConfig {
    WorldGenConfig {
        continent_count: 4,
        continent_size: 1000,
        continent_separation: 1000,
        continent_clustering: 500,
        target_land_percentage: 350,
        sea_level_variance: 100,
        tectonic_activity: 1000,
        volcanic_activity: 1000,
        global_temperature: 1000,
        rainfall_multiplier: 900,
        climate_extremeness: 1000,
        island_frequency: 1000,
        archipelago_zones: 1,
        inland_seas: false,
    }
}

impl Default for WorldGenConfig {
    fn default() -> (c: WorldGenConfig)
        ensures
            c.valid(),
            c == default_config(),
    {
        WorldGenConfig {
            continent_count: 4,
            continent_size: 1000,
            continent_separation: 1000,
            continent_clustering: 500,
            target_land_percentage: 350,
            sea_level_variance: 100,
            tectonic_activity: 1000,
            volcanic_activity: 1000,
            global_temperature: 1000,
            rainfall_multiplier: 900,
            climate_extremeness: 1000,
            island_frequency: 1000,
            archipelago_zones: 1,
            inland_seas: false,
        }
    }
}

} // verus!

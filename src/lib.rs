//! Procedural generation of a hexagonal planet surface: geology, elevation,
//! hydrology, climate, biomes and resources, in fixed-point arithmetic.
pub mod fixed;
pub mod hex;
pub mod grid;
pub mod config;
pub mod terrain;
pub mod random;
pub mod tectonics;
pub mod field;
pub mod elevation;
pub mod sorting;
pub mod sea_level;
pub mod hydrology;
pub mod accumulation;
pub mod rivers;
pub mod climate;
pub mod biome;
pub mod resources;
pub mod lakes;
pub mod world;
pub mod model;

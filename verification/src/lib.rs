//! The biome system of the Lau game world: ten ecological zones, their
//! properties and world-generation rules, and seeded biome maps.

pub mod biome;
pub mod iter;
pub mod map;
pub mod noise;
pub mod properties;
pub mod rng;

pub use biome::{Biome, Material};
pub use iter::BiomeMapIter;
pub use map::BiomeMap;
pub use properties::{biome_properties, biome_rule, BiomeProperties, BiomeRule, BiomeTransition};

# lau-biome

The biome system of the Lau game world, written in Verus: ten biomes, their
canonical properties and world-generation rules, and biome maps generated
deterministically from a seed.

Layout:

- `src/biome.rs` – the `Biome` and `Material` enums and the canonical order of biomes.
- `src/properties.rs` – canonical biome properties and rules; numeric values are
  held exactly as whole hundredths (`60` is 0.6).
- `src/rng.rs` – the seeded Xoshiro256** generator (`rand`, `rand_xoshiro`).
- `src/noise.rs` – the seeded permutation table and the fixed-point value noise
  that chooses each cell's biome.
- `src/map.rs` – `BiomeMap`: generation, lookups, biome counts, dominant biome.
- `src/iter.rs` – `BiomeMapIter`, a row-by-row walk over the cells of a map.
- `app/` – serialisable copies of the types (serde), with conversions, and the
  floating-point vibe interpolation of biome transitions.

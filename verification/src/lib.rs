//! Bit-exact reproduction of a layered biome map generator, together with the
//! search that recovers world seeds from observed river coordinates.

pub mod biome_info;
pub mod biome_layers;
pub mod double;
pub mod java_rng;
pub mod mc_rng;
pub mod noise_generator;
pub mod seed_info;

//! Terrain in the manner of the classic block game: a land mask, a height
//! field, topsoil, bedrock and caves.

pub mod biome_block_mutate;
pub mod biomes;
pub mod caves;
pub mod constants;
pub mod util;

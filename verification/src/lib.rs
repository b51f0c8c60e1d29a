//! Layered terrain generation: deterministic position-seeded random numbers,
//! layer stacks that grow and refine a land mask, chunk columns and caves.

pub mod gen;
pub mod generators;
pub mod geom;
pub mod layer;
pub mod rnd;

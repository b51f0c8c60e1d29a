pub mod layer_biomes_heightmap;
pub mod layer_island;
pub mod layer_remove_ocean;
pub mod layer_simple_fn;
pub mod layer_zoom;
pub mod lcg;

pub use self::layer_biomes_heightmap::GenBiomesHeightmap;
pub use self::layer_island::GenIsland;
pub use self::layer_remove_ocean::GenReduceOcean;
pub use self::layer_simple_fn::{GenSimpleFn, GenSimpleFnMixer, GenSimpleFnTransformer};
pub use self::layer_zoom::{GenZoom, ZoomType};
pub use self::lcg::LayerLCG;

use crate::geom::{Pos2, Size2};
use vstd::prelude::*;

verus! {

/// A layer produces one value per cell of a rectangular window of the plane.
///
/// `gen` hands back the window in row-major order: the cell at column `x`
/// and row `y` of the window (world position `pos.x + x`, `pos.y + y`) is at
/// index `x + y * size.x`.
pub trait GenLayer<O> {
    /// The inputs on which `gen` is defined. A layer that does not say
    /// otherwise is taken to be defined on every window.
    open spec fn gen_ok(&self, seed: i64, pos: Pos2, size: Size2) -> bool {
        true
    }

    /// What `gen` may hand back for a world seed and a window. A layer that
    /// does not say so promises nothing beyond the window's length.
    open spec fn gen_spec(&self, seed: i64, pos: Pos2, size: Size2, out: Seq<O>) -> bool {
        true
    }

    fn gen(&self, seed: i64, pos: Pos2, size: Size2) -> (out: Vec<O>)
        requires
            self.gen_ok(seed, pos, size),
        ensures
            out@.len() == size.x * size.y,
            self.gen_spec(seed, pos, size, out@),
    ;
}

/// The kinds of simplex noise a noise layer can hand out.
#[derive(Clone, Copy, Debug, PartialEq, Eq, Structural)]
pub enum SimplexNoiseType {
    Original,
    Normalized,
}

} // verus!

use std::rc::Rc;
use vstd::prelude::*;

use crate::geom::{Pos2, Size2};
use crate::layer::{GenIsland, GenLayer, GenReduceOcean, GenZoom, ZoomType};

verus! {

/// The stack of layers that makes the land mask.
pub type LandMask = GenZoom<bool, GenZoom<bool, GenReduceOcean<GenZoom<bool, GenZoom<bool, GenIsland>>>>>;

/// The parameters of every layer of the land mask, from the top: zooms by
/// majority with seeds 2003 and 2002, the ocean reduction with seed 2 and
/// factor 2, zooms with seeds 2001 (by majority) and 2000 (fuzzy), and the
/// islands with seed 1 and a chance of one in four.
pub open spec fn land_mask_params(m: LandMask) -> bool {
    &&& m.spec_seed() == 2003
    &&& m.spec_zoom_type() == ZoomType::MAJORITY
    &&& m.spec_source().spec_seed() == 2002
    &&& m.spec_source().spec_zoom_type() == ZoomType::MAJORITY
    &&& m.spec_source().spec_source().spec_seed() == 2
    &&& m.spec_source().spec_source().spec_factor() == 2
    &&& m.spec_source().spec_source().spec_source().spec_seed() == 2001
    &&& m.spec_source().spec_source().spec_source().spec_zoom_type() == ZoomType::MAJORITY
    &&& m.spec_source().spec_source().spec_source().spec_source().spec_seed() == 2000
    &&& m.spec_source().spec_source().spec_source().spec_source().spec_zoom_type() == ZoomType::FUZZY
    &&& m.spec_source().spec_source().spec_source().spec_source().spec_source().spec_seed() == 1
    &&& m.spec_source().spec_source().spec_source().spec_source().spec_source().spec_island_chance() == 4
}

/// The land mask: islands with a chance of one in four, zoomed fuzzily, then
/// by majority, with some open ocean turned to land, then zoomed twice more
/// by majority.
pub fn land_mask() -> (src: Rc<LandMask>)
    ensures
        land_mask_params(*src),
{
    let src = GenIsland::new(1, 4);
    let src = GenZoom::new(2000, ZoomType::FUZZY, src);
    let src = GenZoom::new(2001, ZoomType::MAJORITY, src);
    let src = GenReduceOcean::new(2, 2, src);
    let src = GenZoom::new(2002, ZoomType::MAJORITY, src);
    let src = GenZoom::new(2003, ZoomType::MAJORITY, src);
    src
}

/// The land mask is its chain of layers: a stack with the parameters of
/// `land_mask` at every layer is that one stack, so any two such stacks give
/// the same values on every window.
pub proof fn lemma_land_mask_is_its_chain(m1: LandMask, m2: LandMask)
    requires
        land_mask_params(m1),
        land_mask_params(m2),
    ensures
        m1 == m2,
        forall|seed: i64, pos: Pos2, size: Size2, out: Seq<bool>|
            #[trigger] m1.gen_spec(seed, pos, size, out) <==> m2.gen_spec(seed, pos, size, out),
        forall|seed: i64, pos: Pos2, size: Size2| #[trigger] m1.gen_ok(seed, pos, size) <==> m2.gen_ok(seed, pos, size),
{
    let i1 = m1.spec_source().spec_source().spec_source().spec_source().spec_source();
    let i2 = m2.spec_source().spec_source().spec_source().spec_source().spec_source();
    GenIsland::lemma_same_parameters(i1, i2);
    let z1 = m1.spec_source().spec_source().spec_source().spec_source();
    let z2 = m2.spec_source().spec_source().spec_source().spec_source();
    GenZoom::lemma_same_parameters(z1, z2);
    let y1 = m1.spec_source().spec_source().spec_source();
    let y2 = m2.spec_source().spec_source().spec_source();
    GenZoom::lemma_same_parameters(y1, y2);
    let r1 = m1.spec_source().spec_source();
    let r2 = m2.spec_source().spec_source();
    GenReduceOcean::lemma_same_parameters(r1, r2);
    GenZoom::lemma_same_parameters(m1.spec_source(), m2.spec_source());
    GenZoom::lemma_same_parameters(m1, m2);
}

/// The biome of a cell from its temperature and wetness classes: 0 where
/// the temperature class is above 3, 1 elsewhere.
pub fn make_biome_val(pos: Pos2, data: (u8, u8)) -> (v: u8)
    ensures
        v == (if data.0 > 3 { 0u8 } else { 1u8 }),
{
    let (temp, _wet) = data;
    if temp > 3 {
        0
    } else {
        1
    }
}

} // verus!

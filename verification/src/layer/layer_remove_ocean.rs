use std::rc::Rc;
use vstd::prelude::*;

use super::lcg::{lemma_next_value_positive, next_int_ok, spec_next_value, spec_pos_seed, spec_world_seed};
use super::{GenLayer, LayerLCG};
use crate::geom::{col_of, lemma_row_major, row_of, window_ok, Pos2, Size2};

verus! {

/// A layer that turns some cells of open ocean into land: a cell that is
/// ocean, with ocean on its four sides, becomes land with a chance of one in
/// `factor`; every other cell keeps its value.
#[derive(Clone)]
pub struct GenReduceOcean<S> {
    seed: i64,
    source: Rc<S>,
    factor: i32,
}

/// The value at column `x`, row `y` of a window of width `w2` held row-major in `src`.
pub open spec fn at(src: Seq<bool>, w2: int, x: int, y: int) -> bool {
    src[x + y * w2]
}

/// The cell at column `x`, row `y` of the output is ocean, and so are its four
/// neighbours; `src` holds the output window grown by one cell on each side.
pub open spec fn all_ocean(src: Seq<bool>, w: int, x: int, y: int) -> bool {
    let w2 = w + 2;
    &&& !at(src, w2, x + 1, y)
    &&& !at(src, w2, x + 2, y + 1)
    &&& !at(src, w2, x, y + 1)
    &&& !at(src, w2, x + 1, y + 2)
    &&& !at(src, w2, x + 1, y + 1)
}

/// The value of the cell at column `x` and row `y` of a window of the layer.
pub open spec fn ocean_cell(src: Seq<bool>, world: i64, factor: i32, pos: Pos2, w: int, x: int, y: int) -> bool {
    if all_ocean(src, w, x, y)
        && spec_next_value(spec_pos_seed(world, (pos.x + x) as i64, (pos.y + y) as i64), factor) == 0 {
        true
    } else {
        at(src, w + 2, x + 1, y + 1)
    }
}

/// The window of the source layer that a window of this layer reads.
pub open spec fn grown_pos(pos: Pos2) -> Pos2 {
    Pos2 { x: (pos.x - 1) as i32, y: (pos.y - 1) as i32 }
}

/// The size of the window of the source layer that a window of this layer reads.
pub open spec fn grown_size(size: Size2) -> Size2 {
    Size2 { x: (size.x + 2) as u32, y: (size.y + 2) as u32 }
}

/// The output of the layer for a source window `src`.
pub open spec fn ocean_window(src: Seq<bool>, world: i64, factor: i32, pos: Pos2, size: Size2) -> Seq<bool> {
    Seq::new(
        (size.x * size.y) as nat,
        |k: int| ocean_cell(src, world, factor, pos, size.x as int, col_of(k, size.x as int), row_of(k, size.x as int)),
    )
}

/// `next_int(factor)` is defined at every cell of the output window that is
/// ocean surrounded by ocean, where it is called.
pub open spec fn ocean_draws_ok(src: Seq<bool>, world: i64, factor: i32, pos: Pos2, size: Size2) -> bool {
    forall|x: int, y: int|
        0 <= x < size.x && 0 <= y < size.y && #[trigger] all_ocean(src, size.x as int, x, y) ==> next_int_ok(
            spec_pos_seed(world, (pos.x + x) as i64, (pos.y + y) as i64),
            factor,
        )
}

#[verifier::spinoff_prover]
fn ocean_cells(lcg: &mut LayerLCG, factor: i32, src: &Vec<bool>, pos: Pos2, size: Size2) -> (buf: Vec<bool>)
    requires
        window_ok(pos, size),
        (size.x + 2) * (size.y + 2) <= u32::MAX,
        src@.len() == (size.x + 2) * (size.y + 2),
        ocean_draws_ok(src@, old(lcg).world(), factor, pos, size),
    ensures
        final(lcg).world() == old(lcg).world(),
        buf@ == ocean_window(src@, old(lcg).world(), factor, pos, size),
{
    let ghost world = lcg.world();
    let ghost w = size.x as int;
    let mut buf: Vec<bool> = Vec::new();
    let mut y: u32 = 0;
    while y < size.y
        invariant
            window_ok(pos, size),
            (size.x + 2) * (size.y + 2) <= u32::MAX,
            src@.len() == (size.x + 2) * (size.y + 2),
            ocean_draws_ok(src@, world, factor, pos, size),
            w == size.x,
            lcg.world() == world,
            y <= size.y,
            buf@.len() == y * w,
            forall|k: int|
                0 <= k < buf@.len() ==> #[trigger] buf@[k] == ocean_cell(src@, world, factor, pos, w, col_of(k, w), row_of(k, w)),
        decreases size.y - y,
    {
        let mut x: u32 = 0;
        while x < size.x
            invariant
                window_ok(pos, size),
                (size.x + 2) * (size.y + 2) <= u32::MAX,
                src@.len() == (size.x + 2) * (size.y + 2),
                ocean_draws_ok(src@, world, factor, pos, size),
                w == size.x,
                lcg.world() == world,
                y < size.y,
                x <= size.x,
                buf@.len() == y * w + x,
                forall|k: int|
                    0 <= k < buf@.len() ==> #[trigger] buf@[k] == ocean_cell(src@, world, factor, pos, w, col_of(k, w), row_of(k, w)),
            decreases size.x - x,
        {
            let w2: u32 = size.x + 2;
            proof {
                assert((x + 2) + (y + 1) * w2 < (size.x + 2) * (size.y + 2)) by (nonlinear_arith)
                    requires
                        x < size.x,
                        y < size.y,
                        w2 == size.x + 2,
                ;
                assert((x + 1) + (y + 2) * w2 < (size.x + 2) * (size.y + 2)) by (nonlinear_arith)
                    requires
                        x < size.x,
                        y < size.y,
                        w2 == size.x + 2,
                ;
                assert(0 <= y * w2 <= (y + 1) * w2 <= (y + 2) * w2) by (nonlinear_arith)
                    requires
                        w2 >= 0,
                        y >= 0,
                ;
            }
            let v1 = src[(x + 1 + (y + 1 - 1) * w2) as usize];
            let v2 = src[(x + 1 + 1 + (y + 1) * w2) as usize];
            let v3 = src[(x + 1 - 1 + (y + 1) * w2) as usize];
            let v4 = src[(x + 1 + (y + 1 + 1) * w2) as usize];
            let v5 = src[(x + 1 + (y + 1) * w2) as usize];

            lcg.seed_pos((pos.x + x as i32) as i64, (pos.y + y as i32) as i64);
            let cell = if !v1 && !v2 && !v3 && !v4 && !v5 && {
                proof {
                    assert(all_ocean(src@, w, x as int, y as int));
                }
                lcg.next_int(factor) == 0
            } {
                true
            } else {
                v5
            };
            proof {
                lemma_row_major(buf@.len() as int, w, y as int, x as int);
            }
            buf.push(cell);
            x = x + 1;
        }
        y = y + 1;
        assert(buf@.len() == y * w) by (nonlinear_arith)
            requires
                buf@.len() == (y - 1) * w + w,
        ;
    }
    assert(buf@.len() == size.x * size.y) by (nonlinear_arith)
        requires
            buf@.len() == y * w,
            y == size.y,
            w == size.x,
    ;
    assert(buf@ =~= ocean_window(src@, world, factor, pos, size));
    buf
}

impl<S: GenLayer<bool>> GenReduceOcean<S> {
    pub closed spec fn spec_seed(&self) -> i64 {
        self.seed
    }

    pub closed spec fn spec_factor(&self) -> i32 {
        self.factor
    }

    pub closed spec fn spec_source(&self) -> S {
        *self.source
    }

    /// Two such layers with the same seed, factor and source are the same layer.
    pub proof fn lemma_same_parameters(a: Self, b: Self)
        requires
            a.spec_seed() == b.spec_seed(),
            a.spec_factor() == b.spec_factor(),
            a.spec_source() == b.spec_source(),
        ensures
            a == b,
    {
    }

    pub fn new(seed: i64, factor: i32, source: Rc<S>) -> (r: Rc<GenReduceOcean<S>>)
        ensures
            r.spec_seed() == seed,
            r.spec_factor() == factor,
            r.spec_source() == *source,
    {
        Rc::new(GenReduceOcean { source: source, seed: seed, factor: factor })
    }
}

impl<S: GenLayer<bool>> GenLayer<bool> for GenReduceOcean<S> {
    open spec fn gen_ok(&self, seed: i64, pos: Pos2, size: Size2) -> bool {
        &&& window_ok(pos, size)
        &&& pos.x > i32::MIN
        &&& pos.y > i32::MIN
        &&& (size.x + 2) * (size.y + 2) <= u32::MAX
        &&& self.spec_source().gen_ok(seed, grown_pos(pos), grown_size(size))
        &&& forall|src: Seq<bool>|
            #[trigger] self.spec_source().gen_spec(seed, grown_pos(pos), grown_size(size), src)
                && src.len() == (size.x + 2) * (size.y + 2) ==> ocean_draws_ok(
                src,
                spec_world_seed(self.spec_seed(), seed),
                self.spec_factor(),
                pos,
                size,
            )
    }

    open spec fn gen_spec(&self, seed: i64, pos: Pos2, size: Size2, out: Seq<bool>) -> bool {
        exists|src: Seq<bool>|
            #![trigger self.spec_source().gen_spec(seed, grown_pos(pos), grown_size(size), src)]
            {
                &&& self.spec_source().gen_spec(seed, grown_pos(pos), grown_size(size), src)
                &&& src.len() == (size.x + 2) * (size.y + 2)
                &&& out == ocean_window(
                    src,
                    spec_world_seed(self.spec_seed(), seed),
                    self.spec_factor(),
                    pos,
                    size,
                )
            }
    }

    fn gen(&self, seed: i64, pos: Pos2, size: Size2) -> (out: Vec<bool>) {
        let mut lcg = LayerLCG::new(self.seed, seed);
        let source = self.source.gen(
            seed,
            Pos2 { x: pos.x - 1, y: pos.y - 1 },
            Size2 { x: size.x + 2, y: size.y + 2 },
        );
        let sink = ocean_cells(&mut lcg, self.factor, &source, pos, size);
        assert(self.spec_source().gen_spec(seed, grown_pos(pos), grown_size(size), source@));
        sink
    }
}

} // verus!

verus! {

/// Reducing ocean never removes land, and it changes no cell next to land:
/// only a cell of ocean whose four neighbours are ocean may turn to land.
pub proof fn lemma_reduce_ocean_keeps_land<S: GenLayer<bool>>(
    layer: GenReduceOcean<S>,
    seed: i64,
    pos: Pos2,
    size: Size2,
    src: Seq<bool>,
    out: Seq<bool>,
    x: int,
    y: int,
)
    requires
        src.len() == (size.x + 2) * (size.y + 2),
        out == ocean_window(src, spec_world_seed(layer.spec_seed(), seed), layer.spec_factor(), pos, size),
        0 <= x < size.x,
        0 <= y < size.y,
    ensures
        0 <= x + y * size.x < out.len(),
        at(src, size.x + 2, x + 1, y + 1) ==> out[x + y * size.x],
        !all_ocean(src, size.x as int, x, y) ==> out[x + y * size.x] == at(src, size.x + 2, x + 1, y + 1),
{
    let k = x + y * size.x;
    lemma_row_major(k, size.x as int, y, x);
    assert(0 <= k < size.x * size.y) by (nonlinear_arith)
        requires
            0 <= x < size.x,
            0 <= y < size.y,
            k == x + y * size.x,
    ;
}

} // verus!

verus! {

/// The source value at world position (`x`, `z`) read by a window of the
/// layer with corner `pos` and width `w`.
pub open spec fn grown_at(src: Seq<bool>, pos: Pos2, w: int, x: int, z: int) -> bool {
    at(src, w + 2, x - pos.x + 1, z - pos.y + 1)
}

/// Two windows of the layer, over sources that agree on a cell and its four
/// neighbours, hold the same value at that cell: the layer's value at a world
/// position does not depend on the window.
pub proof fn lemma_reduce_ocean_window_consistent(
    world: i64,
    factor: i32,
    src1: Seq<bool>,
    pos1: Pos2,
    size1: Size2,
    src2: Seq<bool>,
    pos2: Pos2,
    size2: Size2,
    x: int,
    z: int,
)
    requires
        pos1.x <= x < pos1.x + size1.x,
        pos1.y <= z < pos1.y + size1.y,
        pos2.x <= x < pos2.x + size2.x,
        pos2.y <= z < pos2.y + size2.y,
        grown_at(src1, pos1, size1.x as int, x, z) == grown_at(src2, pos2, size2.x as int, x, z),
        grown_at(src1, pos1, size1.x as int, x + 1, z) == grown_at(src2, pos2, size2.x as int, x + 1, z),
        grown_at(src1, pos1, size1.x as int, x - 1, z) == grown_at(src2, pos2, size2.x as int, x - 1, z),
        grown_at(src1, pos1, size1.x as int, x, z + 1) == grown_at(src2, pos2, size2.x as int, x, z + 1),
        grown_at(src1, pos1, size1.x as int, x, z - 1) == grown_at(src2, pos2, size2.x as int, x, z - 1),
    ensures
        ocean_window(src1, world, factor, pos1, size1)[(x - pos1.x) + (z - pos1.y) * size1.x] == ocean_window(
            src2,
            world,
            factor,
            pos2,
            size2,
        )[(x - pos2.x) + (z - pos2.y) * size2.x],
{
    let k1 = (x - pos1.x) + (z - pos1.y) * size1.x;
    let k2 = (x - pos2.x) + (z - pos2.y) * size2.x;
    lemma_row_major(k1, size1.x as int, z - pos1.y, x - pos1.x);
    lemma_row_major(k2, size2.x as int, z - pos2.y, x - pos2.x);
    assert(0 <= k1 < size1.x * size1.y) by (nonlinear_arith)
        requires
            0 <= x - pos1.x < size1.x,
            0 <= z - pos1.y < size1.y,
            k1 == (x - pos1.x) + (z - pos1.y) * size1.x,
    ;
    assert(0 <= k2 < size2.x * size2.y) by (nonlinear_arith)
        requires
            0 <= x - pos2.x < size2.x,
            0 <= z - pos2.y < size2.y,
            k2 == (x - pos2.x) + (z - pos2.y) * size2.x,
    ;
}

} // verus!

verus! {

/// A cell of the ocean reduction whose source cell and four neighbours are
/// all ocean becomes land exactly when `next_int(factor)`, drawn at the cell's
/// world position from the layer's world seed, is zero; for a positive factor,
/// exactly when the bits of that position seed from 24 up are a multiple of
/// the factor. Any other cell keeps its source value. `src` is the source
/// window, grown by one cell on each side.
pub proof fn lemma_reduce_ocean_cell<S: GenLayer<bool>>(
    layer: GenReduceOcean<S>,
    seed: i64,
    pos: Pos2,
    size: Size2,
    src: Seq<bool>,
    out: Seq<bool>,
    x: int,
    y: int,
)
    requires
        src.len() == (size.x + 2) * (size.y + 2),
        out == ocean_window(src, spec_world_seed(layer.spec_seed(), seed), layer.spec_factor(), pos, size),
        0 <= x < size.x,
        0 <= y < size.y,
    ensures
        0 <= x + y * size.x < out.len(),
        ({
            let w2 = size.x + 2;
            let center = src[(x + 1) + (y + 1) * w2];
            let open = !center && !src[(x + 1) + y * w2] && !src[x + (y + 1) * w2] && !src[(x + 2) + (y + 1) * w2]
                && !src[(x + 1) + (y + 2) * w2];
            let p = spec_pos_seed(
                spec_world_seed(layer.spec_seed(), seed),
                (pos.x + x) as i64,
                (pos.y + y) as i64,
            );
            &&& open ==> out[x + y * size.x] == (spec_next_value(p, layer.spec_factor()) == 0)
            &&& open && layer.spec_factor() > 0 ==> out[x + y * size.x] == (((p >> 24i64) as int)
                % (layer.spec_factor() as int) == 0)
            &&& !open ==> out[x + y * size.x] == center
        }),
{
    let k = x + y * size.x;
    lemma_row_major(k, size.x as int, y, x);
    assert(0 <= k < size.x * size.y) by (nonlinear_arith)
        requires
            0 <= x < size.x,
            0 <= y < size.y,
            k == x + y * size.x,
    ;
    let p = spec_pos_seed(spec_world_seed(layer.spec_seed(), seed), (pos.x + x) as i64, (pos.y + y) as i64);
    if layer.spec_factor() > 0 {
        lemma_next_value_positive(p, layer.spec_factor());
    }
}

} // verus!

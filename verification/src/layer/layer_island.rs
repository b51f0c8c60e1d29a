use std::rc::Rc;
use vstd::prelude::*;

use super::lcg::{lemma_next_value_positive, next_int_ok, spec_next_value, spec_pos_seed, spec_world_seed};
use super::{GenLayer, LayerLCG};
use crate::geom::{col_of, lemma_row_major, lemma_row_major_bounds, row_of, window_ok, Pos2, Size2};

verus! {

/// The bottom layer of a land mask: each cell is land with a chance of one in
/// `island_chance`.
#[derive(Clone)]
pub struct GenIsland {
    seed: i64,
    island_chance: i32,
}

/// The case in which the layer makes the world origin land: the window holds
/// the origin.
pub open spec fn island_center_case(pos: Pos2, size: Size2) -> bool {
    &&& -(size.x as int) < pos.x <= 0
    &&& -(size.y as int) < pos.y <= 0
}

/// The value of the cell at column `x` and row `y` of a window of the island layer.
pub open spec fn island_cell(world: i64, chance: i32, pos: Pos2, size: Size2, x: int, y: int) -> bool {
    ||| spec_next_value(spec_pos_seed(world, (pos.x + x) as i64, (pos.y + y) as i64), chance) == 0
    ||| (island_center_case(pos, size) && x == -pos.x && y == -pos.y)
}

/// Whether the generator, seeded at the cell with index `k` of a window of
/// width `w`, draws a zero out of `chance`.
pub open spec fn island_draw(world: i64, chance: i32, pos: Pos2, w: int, k: int) -> bool {
    spec_next_value(island_cell_seed(world, pos, w, k), chance) == 0
}

/// The position seed of the cell with index `k` of a window of width `w`.
pub open spec fn island_cell_seed(world: i64, pos: Pos2, w: int, k: int) -> i64 {
    spec_pos_seed(world, (pos.x + col_of(k, w)) as i64, (pos.y + row_of(k, w)) as i64)
}

/// `next_int(chance)` is defined at every cell of the window.
pub open spec fn island_draws_ok(world: i64, chance: i32, pos: Pos2, size: Size2) -> bool {
    forall|k: int| 0 <= k < size.x * size.y ==> next_int_ok(#[trigger] island_cell_seed(world, pos, size.x as int, k), chance)
}

/// Draws one value per cell of a window, in row-major order.
#[verifier::spinoff_prover]
fn island_draws(lcg: &mut LayerLCG, chance: i32, pos: Pos2, size: Size2) -> (buf: Vec<bool>)
    requires
        window_ok(pos, size),
        island_draws_ok(old(lcg).world(), chance, pos, size),
    ensures
        final(lcg).world() == old(lcg).world(),
        buf@.len() == size.x * size.y,
        forall|k: int| 0 <= k < buf@.len() ==> #[trigger] buf@[k] == island_draw(old(lcg).world(), chance, pos, size.x as int, k),
{
    let ghost world = lcg.world();
    let ghost w = size.x as int;
    let mut buf: Vec<bool> = Vec::new();
    let mut y: u32 = 0;
    while y < size.y
        invariant
            window_ok(pos, size),
            island_draws_ok(world, chance, pos, size),
            w == size.x,
            lcg.world() == world,
            y <= size.y,
            buf@.len() == y * w,
            forall|k: int| 0 <= k < buf@.len() ==> #[trigger] buf@[k] == island_draw(world, chance, pos, w, k),
        decreases size.y - y,
    {
        let mut x: u32 = 0;
        while x < size.x
            invariant
                window_ok(pos, size),
                island_draws_ok(world, chance, pos, size),
                w == size.x,
                lcg.world() == world,
                y < size.y,
                x <= size.x,
                buf@.len() == y * w + x,
                forall|k: int| 0 <= k < buf@.len() ==> #[trigger] buf@[k] == island_draw(world, chance, pos, w, k),
            decreases size.x - x,
        {
            lcg.seed_pos((pos.x + x as i32) as i64, (pos.y + y as i32) as i64);
            proof {
                let k = buf@.len() as int;
                lemma_row_major(k, w, y as int, x as int);
                assert(k < size.x * size.y) by (nonlinear_arith)
                    requires
                        k == y * w + x,
                        y < size.y,
                        x < size.x,
                        w == size.x,
                ;
                assert(lcg.pos() == island_cell_seed(world, pos, w, k));
            }
            let has_island = lcg.next_int(chance) == 0;
            buf.push(has_island);
            x = x + 1;
        }
        y = y + 1;
        assert(buf@.len() == y * w) by (nonlinear_arith)
            requires
                buf@.len() == (y - 1) * w + w,
        ;
    }
    assert(buf@.len() == size.x * size.y) by (nonlinear_arith)
        requires
            buf@.len() == y * w,
            y == size.y,
            w == size.x,
    ;
    buf
}

impl GenIsland {
    pub closed spec fn spec_seed(&self) -> i64 {
        self.seed
    }

    pub closed spec fn spec_island_chance(&self) -> i32 {
        self.island_chance
    }

    /// Two island layers with the same seed and chance are the same layer.
    pub proof fn lemma_same_parameters(a: Self, b: Self)
        requires
            a.spec_seed() == b.spec_seed(),
            a.spec_island_chance() == b.spec_island_chance(),
        ensures
            a == b,
    {
    }

    pub fn new(seed: i64, island_chance: i32) -> (r: Rc<GenIsland>)
        ensures
            r.spec_seed() == seed,
            r.spec_island_chance() == island_chance,
    {
        Rc::new(GenIsland { seed: seed, island_chance: island_chance })
    }
}

impl GenLayer<bool> for GenIsland {
    open spec fn gen_ok(&self, seed: i64, pos: Pos2, size: Size2) -> bool {
        &&& window_ok(pos, size)
        &&& island_draws_ok(spec_world_seed(self.spec_seed(), seed), self.spec_island_chance(), pos, size)
    }

    open spec fn gen_spec(&self, seed: i64, pos: Pos2, size: Size2, out: Seq<bool>) -> bool {
        out == Seq::new(
            (size.x * size.y) as nat,
            |k: int|
                island_cell(
                    spec_world_seed(self.spec_seed(), seed),
                    self.spec_island_chance(),
                    pos,
                    size,
                    col_of(k, size.x as int),
                    row_of(k, size.x as int),
                ),
        )
    }

    fn gen(&self, seed: i64, pos: Pos2, size: Size2) -> (out: Vec<bool>) {
        let mut lcg = LayerLCG::new(self.seed, seed);
        let ghost world = spec_world_seed(self.seed, seed);
        let ghost w = size.x as int;
        let mut buf = island_draws(&mut lcg, self.island_chance, pos, size);
        // Make sure the center is always an island.
        let px: i64 = pos.x as i64;
        let py: i64 = pos.y as i64;
        let sx: i64 = size.x as i64;
        let sy: i64 = size.y as i64;
        if -sx < px && px <= 0 && -sy < py && py <= 0 {
            proof {
                assert((-py) * sx <= (sy - 1) * sx) by (nonlinear_arith)
                    requires
                        -py <= sy - 1,
                        0 <= sx,
                ;
                assert((sy - 1) * sx == sx * sy - sx) by (nonlinear_arith);
                assert(0 <= (-py) * sx) by (nonlinear_arith)
                    requires
                        0 <= -py,
                        0 <= sx,
                ;
            }
            let idx: i64 = -px + (-py) * sx;
            proof {
                lemma_row_major(idx as int, w, -pos.y as int, -pos.x as int);
            }
            buf.set(idx as usize, true);
        }
        proof {
            let ghost expected = Seq::new(
                (size.x * size.y) as nat,
                |k: int| island_cell(world, self.island_chance, pos, size, col_of(k, w), row_of(k, w)),
            );
            assert forall|k: int| 0 <= k < buf@.len() implies buf@[k] == expected[k] by {
                if w > 0 {
                    lemma_row_major_bounds(k, w, size.y as int);
                }
                if island_center_case(pos, size) && col_of(k, w) == -pos.x && row_of(k, w) == -pos.y {
                    lemma_row_major(k, w, -pos.y as int, -pos.x as int);
                }
            }
            assert(buf@ =~= expected);
        }
        buf
    }
}

} // verus!

verus! {

/// The island layer always makes the world origin land when the window holds it.
pub proof fn lemma_island_origin_is_land(layer: GenIsland, seed: i64, pos: Pos2, size: Size2, out: Seq<bool>)
    requires
        layer.gen_ok(seed, pos, size),
        layer.gen_spec(seed, pos, size, out),
        -(size.x as int) < pos.x <= 0,
        -(size.y as int) < pos.y <= 0,
    ensures
        0 <= -pos.x + (-pos.y) * size.x < out.len(),
        out[-pos.x + (-pos.y) * size.x],
{
    let k = -pos.x + (-pos.y) * size.x;
    assert(k < size.x * size.y) by (nonlinear_arith)
        requires
            -pos.y < size.y,
            -pos.x < size.x,
            k == -pos.x + (-pos.y) * size.x,
    ;
    assert(0 <= k) by (nonlinear_arith)
        requires
            -pos.y >= 0,
            -pos.x >= 0,
            k == -pos.x + (-pos.y) * size.x,
    ;
    lemma_row_major(k, size.x as int, -pos.y as int, -pos.x as int);
}

} // verus!

verus! {

/// The island layer's value at a world position does not depend on the window
/// it is generated in.
pub proof fn lemma_island_window_independent(
    layer: GenIsland,
    seed: i64,
    pos1: Pos2,
    size1: Size2,
    out1: Seq<bool>,
    pos2: Pos2,
    size2: Size2,
    out2: Seq<bool>,
    x: int,
    z: int,
)
    requires
        layer.gen_spec(seed, pos1, size1, out1),
        layer.gen_spec(seed, pos2, size2, out2),
        pos1.x <= x < pos1.x + size1.x,
        pos1.y <= z < pos1.y + size1.y,
        pos2.x <= x < pos2.x + size2.x,
        pos2.y <= z < pos2.y + size2.y,
    ensures
        0 <= (x - pos1.x) + (z - pos1.y) * size1.x < out1.len(),
        0 <= (x - pos2.x) + (z - pos2.y) * size2.x < out2.len(),
        out1[(x - pos1.x) + (z - pos1.y) * size1.x] == out2[(x - pos2.x) + (z - pos2.y) * size2.x],
{
    let k1 = (x - pos1.x) + (z - pos1.y) * size1.x;
    let k2 = (x - pos2.x) + (z - pos2.y) * size2.x;
    lemma_row_major(k1, size1.x as int, z - pos1.y, x - pos1.x);
    lemma_row_major(k2, size2.x as int, z - pos2.y, x - pos2.x);
    assert(0 <= k1 < size1.x * size1.y) by (nonlinear_arith)
        requires
            0 <= x - pos1.x < size1.x,
            0 <= z - pos1.y < size1.y,
            k1 == (x - pos1.x) + (z - pos1.y) * size1.x,
    ;
    assert(0 <= k2 < size2.x * size2.y) by (nonlinear_arith)
        requires
            0 <= x - pos2.x < size2.x,
            0 <= z - pos2.y < size2.y,
            k2 == (x - pos2.x) + (z - pos2.y) * size2.x,
    ;
}

} // verus!

verus! {

/// Away from the world origin, a cell of the island layer is land exactly
/// when `next_int(island_chance)`, drawn at the cell's world position from the
/// layer's world seed, is zero; for a positive chance, exactly when the bits
/// of that position seed from 24 up are a multiple of the chance.
pub proof fn lemma_island_cell_is_a_draw(
    layer: GenIsland,
    seed: i64,
    pos: Pos2,
    size: Size2,
    out: Seq<bool>,
    x: int,
    y: int,
)
    requires
        layer.gen_spec(seed, pos, size, out),
        0 <= x < size.x,
        0 <= y < size.y,
        pos.x + x != 0 || pos.y + y != 0,
    ensures
        0 <= x + y * size.x < out.len(),
        ({
            let p = spec_pos_seed(
                spec_world_seed(layer.spec_seed(), seed),
                (pos.x + x) as i64,
                (pos.y + y) as i64,
            );
            &&& out[x + y * size.x] == (spec_next_value(p, layer.spec_island_chance()) == 0)
            &&& layer.spec_island_chance() > 0 ==> (out[x + y * size.x] == (((p >> 24i64) as int)
                % (layer.spec_island_chance() as int) == 0))
        }),
{
    let k = x + y * size.x;
    lemma_row_major(k, size.x as int, y, x);
    assert(0 <= k < size.x * size.y) by (nonlinear_arith)
        requires
            0 <= x < size.x,
            0 <= y < size.y,
            k == x + y * size.x,
    ;
    let p = spec_pos_seed(spec_world_seed(layer.spec_seed(), seed), (pos.x + x) as i64, (pos.y + y) as i64);
    if layer.spec_island_chance() > 0 {
        lemma_next_value_positive(p, layer.spec_island_chance());
    }
}

} // verus!

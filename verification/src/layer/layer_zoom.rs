use std::marker::PhantomData;
use std::rc::Rc;
use vstd::laws_eq::obeys_concrete_eq;
use vstd::prelude::*;

use super::lcg::{lemma_next_value_positive, spec_next_pos, spec_next_value, spec_pick4, spec_pos_seed, spec_world_seed};
use super::{GenLayer, LayerLCG};
use crate::geom::{col_of, lemma_row_major, lemma_row_major_bounds, row_of, window_ok, Pos2, Size2};

verus! {

/// How many of four values equal `v`.
pub open spec fn count4<T>(v: T, i1: T, i2: T, i3: T, i4: T) -> int {
    (if i1 == v { 1int } else { 0 }) + (if i2 == v { 1int } else { 0 }) + (if i3 == v { 1int } else { 0 }) + (
    if i4 == v { 1int } else { 0 })
}

/// Two of the four values that differ from `v` are equal to each other.
pub open spec fn others_pair_up<T>(v: T, i1: T, i2: T, i3: T, i4: T) -> bool {
    ||| (i1 != v && i2 != v && i1 == i2)
    ||| (i1 != v && i3 != v && i1 == i3)
    ||| (i1 != v && i4 != v && i1 == i4)
    ||| (i2 != v && i3 != v && i2 == i3)
    ||| (i2 != v && i4 != v && i2 == i4)
    ||| (i3 != v && i4 != v && i3 == i4)
}

/// `v` is held by more of the four values than any other value is: by three
/// or four of them, or by two while the other two differ.
pub open spec fn is_plurality<T>(v: T, i1: T, i2: T, i3: T, i4: T) -> bool {
    count4(v, i1, i2, i3, i4) >= 3 || (count4(v, i1, i2, i3, i4) == 2 && !others_pair_up(v, i1, i2, i3, i4))
}

/// The value that `frequent_or_random` picks among four, where `pos_seed` is
/// the position seed of the generator it is handed: the value held by more of
/// the four than any other, and where there is none, one of the four chosen
/// by the generator's next draw out of four.
pub open spec fn spec_frequent_or_random<T>(pos_seed: i64, i1: T, i2: T, i3: T, i4: T) -> T {
    if is_plurality(i1, i1, i2, i3, i4) {
        i1
    } else if is_plurality(i2, i1, i2, i3, i4) {
        i2
    } else if is_plurality(i3, i1, i2, i3, i4) {
        i3
    } else if is_plurality(i4, i1, i2, i3, i4) {
        i4
    } else {
        spec_pick4(spec_next_value(pos_seed, 4), i1, i2, i3, i4)
    }
}

/// `frequent_or_random` draws from the generator only when no value is more
/// frequent than every other among the four.
pub open spec fn frequent_needs_draw<T>(i1: T, i2: T, i3: T, i4: T) -> bool {
    &&& !is_plurality(i1, i1, i2, i3, i4)
    &&& !is_plurality(i2, i1, i2, i3, i4)
    &&& !is_plurality(i3, i1, i2, i3, i4)
    &&& !is_plurality(i4, i1, i2, i3, i4)
}

fn frequent_or_random<T: PartialEq>(rand: &mut LayerLCG, i1: T, i2: T, i3: T, i4: T) -> (r: T)
    requires
        obeys_concrete_eq::<T>(),
    ensures
        r == spec_frequent_or_random(old(rand).pos(), i1, i2, i3, i4),
        final(rand).base() == old(rand).base(),
        final(rand).world() == old(rand).world(),
        final(rand).pos() == (if frequent_needs_draw(i1, i2, i3, i4) {
            spec_next_pos(old(rand).pos(), old(rand).world())
        } else {
            old(rand).pos()
        }),
{
    proof {
        reveal(obeys_concrete_eq);
    }
    if i2 == i3 && i3 == i4 {
        i2
    } else if i1 == i2 && i2 == i3 {
        i1
    } else if i1 == i2 && i2 == i4 {
        i1
    } else if i1 == i3 && i3 == i4 {
        i1
    } else if i1 == i2 && i3 != i4 {
        i1
    } else if i1 == i3 && i2 != i4 {
        i1
    } else if i1 == i4 && i2 != i3 {
        i1
    } else if i2 == i3 && i1 != i4 {
        i2
    } else if i2 == i4 && i1 != i3 {
        i2
    } else if i3 == i4 && i1 != i2 {
        i3
    } else {
        rand.random_from_4(i1, i2, i3, i4)
    }
}

} // verus!

verus! {

/// Halving by an arithmetic shift, and doubling back, in `i32`.
pub proof fn lemma_half_i32(x: i32)
    ensures
        (x & 1i32) == 0i32 || (x & 1i32) == 1i32,
        ((x >> 1i32) << 1i32) + (x & 1i32) == x,
        ((x >> 1i32) << 1i32) == 2 * (x >> 1i32),
        (x >> 1i32) * 2 + (x & 1i32) == x,
{
    assert((x & 1i32) == 0i32 || (x & 1i32) == 1i32) by (bit_vector);
    assert(((x >> 1i32) << 1i32) + (x & 1i32) == x) by (bit_vector);
    assert(((x >> 1i32) << 1i32) == 2 * (x >> 1i32)) by (bit_vector);
    assert((x >> 1i32) * 2 + (x & 1i32) == x) by (bit_vector);
}

/// Doubling by a shift in `i32`, for values whose double fits.
pub proof fn lemma_double_i32(x: i32)
    requires
        -0x4000_0000 <= x < 0x4000_0000,
    ensures
        (x << 1i32) == 2 * x,
{
    assert((x << 1i32) == 2 * x) by (bit_vector)
        requires
            -0x4000_0000 <= x < 0x4000_0000,
    ;
}

/// Halving by a shift in `u32`.
pub proof fn lemma_half_u32(x: u32)
    ensures
        (x >> 1u32) == x / 2,
{
    assert((x >> 1u32) == x / 2) by (bit_vector);
}

} // verus!

verus! {

/// How a zoom layer fills the cell between four source samples.
#[derive(Clone, Copy, Debug, PartialEq, Eq, Structural)]
pub enum ZoomType {
    /// The most frequent of the four samples, or a random one on a tie.
    MAJORITY,
    /// A random one of the four samples.
    FUZZY,
}

/// A layer that doubles the resolution of its source: every source sample
/// becomes a two by two block whose other three cells are drawn from the
/// neighbouring samples.
pub struct GenZoom<I, S> {
    source: Rc<S>,
    seed: i64,
    zoom_type: ZoomType,
    marker: PhantomData<I>,
}

/// The corner of the source window that a window of the zoom layer reads.
pub open spec fn zoom_source_pos(pos: Pos2) -> Pos2 {
    Pos2 { x: pos.x >> 1i32, y: pos.y >> 1i32 }
}

/// The size of the source window that a window of the zoom layer reads.
pub open spec fn zoom_source_size(size: Size2) -> Size2 {
    Size2 { x: ((size.x >> 1u32) + 2) as u32, y: ((size.y >> 1u32) + 2) as u32 }
}

/// The width of the doubled buffer that a window of the zoom layer fills.
pub open spec fn zoom_buffer_w(size: Size2) -> int {
    2 * (zoom_source_size(size).x - 1)
}

/// The height of the doubled buffer that a window of the zoom layer fills.
pub open spec fn zoom_buffer_h(size: Size2) -> int {
    2 * (zoom_source_size(size).y - 1)
}

/// The position seed with which the two by two block at column `a`, row `b`
/// of the doubled buffer is drawn; `sp` is the corner of the source window.
pub open spec fn zoom_block_seed(world: i64, sp: Pos2, a: int, b: int) -> i64 {
    spec_pos_seed(world, (a + (sp.x << 1i32)) as i64, (((b + sp.y) as i32) << 1i32) as i64)
}

#[verifier::opaque]
/// The cell at column `ux`, row `uy` of the doubled buffer, where `src` is the
/// source window (row-major, width `sw`) with corner `sp`.
pub open spec fn zoom_unaligned<I>(src: Seq<I>, sw: int, world: i64, sp: Pos2, zoom_type: ZoomType, ux: int, uy: int) -> I {
    let a = ux / 2;
    let b = uy / 2;
    let s00 = src[a + b * sw];
    let s10 = src[a + 1 + b * sw];
    let s01 = src[a + (b + 1) * sw];
    let s11 = src[a + 1 + (b + 1) * sw];
    let p0 = zoom_block_seed(world, sp, a, b);
    let p1 = spec_next_pos(p0, world);
    let p2 = spec_next_pos(p1, world);
    if ux % 2 == 0 && uy % 2 == 0 {
        s00
    } else if uy % 2 == 0 {
        if spec_next_value(p0, 2) == 0 { s00 } else { s10 }
    } else if ux % 2 == 0 {
        if spec_next_value(p1, 2) == 0 { s00 } else { s01 }
    } else {
        match zoom_type {
            ZoomType::MAJORITY => spec_frequent_or_random(p2, s00, s10, s01, s11),
            ZoomType::FUZZY => spec_pick4(spec_next_value(p2, 4), s00, s10, s01, s11),
        }
    }
}

/// The output of the zoom layer for the source window `src`.
pub open spec fn zoom_window<I>(src: Seq<I>, world: i64, zoom_type: ZoomType, pos: Pos2, size: Size2) -> Seq<I> {
    Seq::new(
        (size.x * size.y) as nat,
        |k: int|
            zoom_unaligned(
                src,
                zoom_source_size(size).x as int,
                world,
                zoom_source_pos(pos),
                zoom_type,
                col_of(k, size.x as int) + (pos.x & 1i32),
                row_of(k, size.x as int) + (pos.y & 1i32),
            ),
    )
}

/// The doubled buffer fits in `u32`, and the offsets into it fit in `i32`.
pub open spec fn zoom_buffer_ok(pos: Pos2, size: Size2) -> bool {
    let uw = zoom_buffer_w(size);
    let uh = zoom_buffer_h(size);
    &&& uw * uh <= u32::MAX
    &&& size.y > 0 ==> (size.y - 1 + (pos.y & 1i32)) * uw + (pos.x & 1i32) + (if size.x == 0 {
        0
    } else {
        size.x - 1
    }) <= i32::MAX
}

/// Draws the three cells of a two by two block of the doubled buffer that are
/// not the source sample itself: right of it, below it, and diagonal to it.
fn zoom_block<I: PartialEq + Copy>(lcg: &mut LayerLCG, s00: I, s10: I, s01: I, s11: I, zoom_type: ZoomType) -> (r: (I, I, I))
    requires
        zoom_type == ZoomType::MAJORITY ==> obeys_concrete_eq::<I>(),
    ensures
        final(lcg).world() == old(lcg).world(),
        ({
            let p0 = old(lcg).pos();
            let world = old(lcg).world();
            let p1 = spec_next_pos(p0, world);
            let p2 = spec_next_pos(p1, world);
            &&& r.0 == (if spec_next_value(p0, 2) == 0 { s00 } else { s10 })
            &&& r.1 == (if spec_next_value(p1, 2) == 0 { s00 } else { s01 })
            &&& r.2 == (match zoom_type {
                ZoomType::MAJORITY => spec_frequent_or_random(p2, s00, s10, s01, s11),
                ZoomType::FUZZY => spec_pick4(spec_next_value(p2, 4), s00, s10, s01, s11),
            })
        }),
{
    let right = lcg.random_from_2(s00, s10);
    let below = lcg.random_from_2(s00, s01);
    let diagonal = match zoom_type {
        ZoomType::MAJORITY => frequent_or_random(lcg, s00, s10, s01, s11),
        ZoomType::FUZZY => lcg.random_from_4(s00, s10, s01, s11),
    };
    (right, below, diagonal)
}

/// The four cells of the two by two block at column `a`, row `b` of the
/// doubled buffer.
pub proof fn lemma_zoom_block_cells<I>(src: Seq<I>, sw: int, world: i64, sp: Pos2, zoom_type: ZoomType, a: int, b: int)
    requires
        0 <= a,
        0 <= b,
    ensures
        ({
            let s00 = src[a + b * sw];
            let s10 = src[a + 1 + b * sw];
            let s01 = src[a + (b + 1) * sw];
            let s11 = src[a + 1 + (b + 1) * sw];
            let p0 = zoom_block_seed(world, sp, a, b);
            let p1 = spec_next_pos(p0, world);
            let p2 = spec_next_pos(p1, world);
            &&& zoom_unaligned(src, sw, world, sp, zoom_type, 2 * a, 2 * b) == s00
            &&& zoom_unaligned(src, sw, world, sp, zoom_type, 2 * a + 1, 2 * b) == (if spec_next_value(p0, 2) == 0 {
                s00
            } else {
                s10
            })
            &&& zoom_unaligned(src, sw, world, sp, zoom_type, 2 * a, 2 * b + 1) == (if spec_next_value(p1, 2) == 0 {
                s00
            } else {
                s01
            })
            &&& zoom_unaligned(src, sw, world, sp, zoom_type, 2 * a + 1, 2 * b + 1) == (match zoom_type {
                ZoomType::MAJORITY => spec_frequent_or_random(p2, s00, s10, s01, s11),
                ZoomType::FUZZY => spec_pick4(spec_next_value(p2, 4), s00, s10, s01, s11),
            })
        }),
{
    reveal(zoom_unaligned);
    assert((2 * a) / 2 == a && (2 * a + 1) / 2 == a && (2 * a) % 2 == 0 && (2 * a + 1) % 2 == 1);
    assert((2 * b) / 2 == b && (2 * b + 1) / 2 == b && (2 * b) % 2 == 0 && (2 * b + 1) % 2 == 1);
}

/// Fills the doubled buffer, two rows per source row.
#[verifier::spinoff_prover]
fn zoom_rows<I: PartialEq + Copy>(
    lcg: &mut LayerLCG,
    src: &Vec<I>,
    sp: Pos2,
    sw: u32,
    sh: u32,
    zoom_type: ZoomType,
) -> (rows: Vec<Vec<I>>)
    requires
        zoom_type == ZoomType::MAJORITY ==> obeys_concrete_eq::<I>(),
        sw >= 2,
        sh >= 2,
        src@.len() == sw * sh,
        sw * sh <= u32::MAX,
        sw <= 0x8000_0000,
        sh <= 0x8000_0000,
        2 * sp.x + (sw - 2) <= i32::MAX,
        sp.y + (sh - 2) <= i32::MAX,
        -0x4000_0000 <= sp.x,
        -0x4000_0000 <= sp.y,
    ensures
        final(lcg).world() == old(lcg).world(),
        rows@.len() == 2 * (sh - 1),
        forall|r: int| 0 <= r < rows@.len() ==> #[trigger] rows@[r]@.len() == 2 * (sw - 1),
        forall|r: int, c: int|
            0 <= r < rows@.len() && 0 <= c < 2 * (sw - 1) ==> #[trigger] rows@[r]@[c] == zoom_unaligned(
                src@,
                sw as int,
                old(lcg).world(),
                sp,
                zoom_type,
                c,
                r,
            ),
{
    let ghost world = lcg.world();
    proof {
        lemma_double_i32(sp.x);
    }
    let mut rows: Vec<Vec<I>> = Vec::new();
    let mut b: u32 = 0;
    while b < sh - 1
        invariant
            zoom_type == ZoomType::MAJORITY ==> obeys_concrete_eq::<I>(),
            sw >= 2,
            sh >= 2,
            src@.len() == sw * sh,
            sw * sh <= u32::MAX,
            sw <= 0x8000_0000,
            sh <= 0x8000_0000,
            2 * sp.x + (sw - 2) <= i32::MAX,
            sp.y + (sh - 2) <= i32::MAX,
            -0x4000_0000 <= sp.x,
            -0x4000_0000 <= sp.y,
            (sp.x << 1i32) == 2 * sp.x,
            lcg.world() == world,
            b <= sh - 1,
            rows@.len() == 2 * b,
            forall|r: int| 0 <= r < rows@.len() ==> #[trigger] rows@[r]@.len() == 2 * (sw - 1),
            forall|r: int, c: int|
                0 <= r < rows@.len() && 0 <= c < 2 * (sw - 1) ==> #[trigger] rows@[r]@[c] == zoom_unaligned(
                    src@,
                    sw as int,
                    world,
                    sp,
                    zoom_type,
                    c,
                    r,
                ),
        decreases sh - 1 - b,
    {
        proof {
            assert((b + 1) * sw + sw - 1 < sw * sh) by (nonlinear_arith)
                requires
                    b < sh - 1,
                    sw >= 2,
            ;
            assert(0 <= b * sw <= (b + 1) * sw) by (nonlinear_arith)
                requires
                    sw >= 0,
                    b >= 0,
            ;
            assert((b + 1) * sw + sw - 1 < sw * sh);
        }
        let mut top: Vec<I> = Vec::new();
        let mut bot: Vec<I> = Vec::new();
        let mut sample00 = src[(b * sw) as usize];
        let mut sample01 = src[((b + 1) * sw) as usize];
        let mut a: u32 = 0;
        while a < sw - 1
            invariant
                zoom_type == ZoomType::MAJORITY ==> obeys_concrete_eq::<I>(),
                sw >= 2,
                sh >= 2,
                src@.len() == sw * sh,
                sw * sh <= u32::MAX,
                sw <= 0x8000_0000,
                sh <= 0x8000_0000,
                2 * sp.x + (sw - 2) <= i32::MAX,
                sp.y + (sh - 2) <= i32::MAX,
                -0x4000_0000 <= sp.x,
                -0x4000_0000 <= sp.y,
                (sp.x << 1i32) == 2 * sp.x,
                lcg.world() == world,
                b < sh - 1,
                (b + 1) * sw + sw - 1 < sw * sh,
                0 <= b * sw <= (b + 1) * sw,
                a <= sw - 1,
                top@.len() == 2 * a,
                bot@.len() == 2 * a,
                sample00 == src@[a + b * sw],
                sample01 == src@[a + (b + 1) * sw],
                forall|c: int| 0 <= c < top@.len() ==> #[trigger] top@[c] == zoom_unaligned(
                    src@,
                    sw as int,
                    world,
                    sp,
                    zoom_type,
                    c,
                    2 * b,
                ),
                forall|c: int| 0 <= c < bot@.len() ==> #[trigger] bot@[c] == zoom_unaligned(
                    src@,
                    sw as int,
                    world,
                    sp,
                    zoom_type,
                    c,
                    2 * b + 1,
                ),
            decreases sw - 1 - a,
        {
            lcg.seed_pos((a as i32 + (sp.x << 1i32)) as i64, ((b as i32 + sp.y) << 1i32) as i64);
            let sample10 = src[(a + 1 + b * sw) as usize];
            let sample11 = src[(a + 1 + (b + 1) * sw) as usize];
            let (right, below, diagonal) = zoom_block(lcg, sample00, sample10, sample01, sample11, zoom_type);
            proof {
                lemma_zoom_block_cells(src@, sw as int, world, sp, zoom_type, a as int, b as int);
            }
            let ghost old_top = top@;
            let ghost old_bot = bot@;
            top.push(sample00);
            top.push(right);
            bot.push(below);
            bot.push(diagonal);
            proof {
                assert forall|c: int| 0 <= c < top@.len() implies #[trigger] top@[c] == zoom_unaligned(
                    src@,
                    sw as int,
                    world,
                    sp,
                    zoom_type,
                    c,
                    2 * b,
                ) by {
                    if c < old_top.len() {
                        assert(top@[c] == old_top[c]);
                    }
                }
                assert forall|c: int| 0 <= c < bot@.len() implies #[trigger] bot@[c] == zoom_unaligned(
                    src@,
                    sw as int,
                    world,
                    sp,
                    zoom_type,
                    c,
                    2 * b + 1,
                ) by {
                    if c < old_bot.len() {
                        assert(bot@[c] == old_bot[c]);
                    }
                }
            }
            sample00 = sample10;
            sample01 = sample11;
            a = a + 1;
        }
        rows.push(top);
        rows.push(bot);
        b = b + 1;
    }
    rows
}

/// Reads the output window out of the doubled buffer, shifted by the low bit
/// of the window's corner.
#[verifier::spinoff_prover]
fn zoom_extract<I: Copy>(rows: &Vec<Vec<I>>, pos: Pos2, size: Size2) -> (out: Vec<I>)
    requires
        window_ok(pos, size),
        rows@.len() >= size.y + 1,
        forall|r: int| 0 <= r < rows@.len() ==> #[trigger] rows@[r]@.len() >= size.x + 1,
    ensures
        out@.len() == size.x * size.y,
        forall|k: int|
            0 <= k < out@.len() ==> #[trigger] out@[k] == rows@[row_of(k, size.x as int) + (pos.y & 1i32)]@[col_of(
                k,
                size.x as int,
            ) + (pos.x & 1i32)],
{
    proof {
        lemma_half_i32(pos.x);
        lemma_half_i32(pos.y);
    }
    let ghost w = size.x as int;
    let ox: u32 = (pos.x & 1i32) as u32;
    let oy: u32 = (pos.y & 1i32) as u32;
    let mut out: Vec<I> = Vec::new();
    let mut row: u32 = 0;
    while row < size.y
        invariant
            window_ok(pos, size),
            rows@.len() >= size.y + 1,
            forall|r: int| 0 <= r < rows@.len() ==> #[trigger] rows@[r]@.len() >= size.x + 1,
            w == size.x,
            ox == (pos.x & 1i32),
            oy == (pos.y & 1i32),
            ox <= 1,
            oy <= 1,
            row <= size.y,
            out@.len() == row * w,
            forall|k: int|
                0 <= k < out@.len() ==> #[trigger] out@[k] == rows@[row_of(k, w) + oy]@[col_of(k, w) + ox],
        decreases size.y - row,
    {
        let mut col: u32 = 0;
        while col < size.x
            invariant
                window_ok(pos, size),
                rows@.len() >= size.y + 1,
                forall|r: int| 0 <= r < rows@.len() ==> #[trigger] rows@[r]@.len() >= size.x + 1,
                w == size.x,
                ox <= 1,
                oy <= 1,
                row < size.y,
                col <= size.x,
                out@.len() == row * w + col,
                forall|k: int|
                    0 <= k < out@.len() ==> #[trigger] out@[k] == rows@[row_of(k, w) + oy]@[col_of(k, w) + ox],
            decreases size.x - col,
        {
            proof {
                lemma_row_major(out@.len() as int, w, row as int, col as int);
                assert(rows@[(row + oy) as int]@.len() >= size.x + 1);
            }
            let v = rows[(row + oy) as usize][(col + ox) as usize];
            out.push(v);
            col = col + 1;
        }
        row = row + 1;
        assert(out@.len() == row * w) by (nonlinear_arith)
            requires
                out@.len() == (row - 1) * w + w,
        ;
    }
    assert(out@.len() == size.x * size.y) by (nonlinear_arith)
        requires
            out@.len() == row * w,
            row == size.y,
            w == size.x,
    ;
    out
}

impl<I, S: GenLayer<I>> GenZoom<I, S> {
    pub closed spec fn spec_seed(&self) -> i64 {
        self.seed
    }

    pub closed spec fn spec_zoom_type(&self) -> ZoomType {
        self.zoom_type
    }

    pub closed spec fn spec_source(&self) -> S {
        *self.source
    }

    /// Two zoom layers with the same seed, zoom type and source are the same layer.
    pub proof fn lemma_same_parameters(a: Self, b: Self)
        requires
            a.spec_seed() == b.spec_seed(),
            a.spec_zoom_type() == b.spec_zoom_type(),
            a.spec_source() == b.spec_source(),
        ensures
            a == b,
    {
    }

    pub fn new(seed: i64, zoom_type: ZoomType, source: Rc<S>) -> (r: Rc<GenZoom<I, S>>)
        ensures
            r.spec_seed() == seed,
            r.spec_zoom_type() == zoom_type,
            r.spec_source() == *source,
    {
        Rc::new(GenZoom { source: source, seed: seed, zoom_type: zoom_type, marker: PhantomData })
    }
}

impl<I: PartialEq + Copy, S: GenLayer<I>> GenLayer<I> for GenZoom<I, S> {
    open spec fn gen_ok(&self, seed: i64, pos: Pos2, size: Size2) -> bool {
        &&& window_ok(pos, size)
        &&& zoom_buffer_ok(pos, size)
        &&& self.spec_zoom_type() == ZoomType::MAJORITY ==> obeys_concrete_eq::<I>()
        &&& self.spec_source().gen_ok(seed, zoom_source_pos(pos), zoom_source_size(size))
    }

    open spec fn gen_spec(&self, seed: i64, pos: Pos2, size: Size2, out: Seq<I>) -> bool {
        exists|src: Seq<I>|
            #![trigger self.spec_source().gen_spec(seed, zoom_source_pos(pos), zoom_source_size(size), src)]
            {
                &&& self.spec_source().gen_spec(seed, zoom_source_pos(pos), zoom_source_size(size), src)
                &&& src.len() == zoom_source_size(size).x * zoom_source_size(size).y
                &&& out == zoom_window(
                    src,
                    spec_world_seed(self.spec_seed(), seed),
                    self.spec_zoom_type(),
                    pos,
                    size,
                )
            }
    }

#[verifier::spinoff_prover]
    fn gen(&self, seed: i64, pos: Pos2, size: Size2) -> (out: Vec<I>) {
        let mut lcg = LayerLCG::new(self.seed, seed);
        let ghost world = lcg.world();
        proof {
            lemma_half_i32(pos.x);
            lemma_half_i32(pos.y);
            lemma_half_u32(size.x);
            lemma_half_u32(size.y);
        }
        let source_x = pos.x >> 1i32;
        let source_y = pos.y >> 1i32;
        // +1 for sampling a 2x2 area everywhere, +1 for the bit lost in the shift
        let source_w = (size.x >> 1u32) + 2;
        let source_h = (size.y >> 1u32) + 2;
        let source_pos = Pos2 { x: source_x, y: source_y };
        let source_size = Size2 { x: source_w, y: source_h };
        let source_buf = self.source.gen(seed, source_pos, source_size);
        proof {
            assert(source_w * source_h <= 4 * (source_w - 1) * (source_h - 1)) by (nonlinear_arith)
                requires
                    source_w >= 2,
                    source_h >= 2,
            ;
            assert(4 * (source_w - 1) * (source_h - 1) == zoom_buffer_w(size) * zoom_buffer_h(size)) by (nonlinear_arith)
                requires
                    zoom_buffer_w(size) == 2 * (source_w - 1),
                    zoom_buffer_h(size) == 2 * (source_h - 1),
            ;
        }
        let rows = zoom_rows(&mut lcg, &source_buf, source_pos, source_w, source_h, self.zoom_type);
        let out = zoom_extract(&rows, pos, size);
        proof {
            let expected = zoom_window(source_buf@, world, self.zoom_type, pos, size);
            assert forall|k: int| 0 <= k < out@.len() implies out@[k] == expected[k] by {
                lemma_row_major_bounds(k, size.x as int, size.y as int);
            }
            assert(out@ =~= expected);
            assert(self.spec_source().gen_spec(seed, zoom_source_pos(pos), zoom_source_size(size), source_buf@));
        }
        out
    }
}

} // verus!

verus! {

/// Zooming keeps the source: the cell of the output at a world position whose
/// two coordinates are even holds the source sample at half that position;
/// `src` is the source window that the output was made from.
#[verifier::spinoff_prover]
pub proof fn lemma_zoom_keeps_even_samples<I: PartialEq + Copy, S: GenLayer<I>>(
    layer: GenZoom<I, S>,
    seed: i64,
    pos: Pos2,
    size: Size2,
    src: Seq<I>,
    out: Seq<I>,
    col: int,
    row: int,
)
    requires
        out == zoom_window(src, spec_world_seed(layer.spec_seed(), seed), layer.spec_zoom_type(), pos, size),
        0 <= col < size.x,
        0 <= row < size.y,
        (pos.x + col) % 2 == 0,
        (pos.y + row) % 2 == 0,
    ensures
        out[col + row * size.x] == src[((pos.x + col) / 2 - (pos.x >> 1i32)) + ((pos.y + row) / 2 - (pos.y >> 1i32))
            * zoom_source_size(size).x],
{
    lemma_half_i32(pos.x);
    lemma_half_i32(pos.y);
    let k = col + row * size.x;
    lemma_row_major(k, size.x as int, row, col);
    assert(0 <= k < size.x * size.y) by (nonlinear_arith)
        requires
            0 <= col < size.x,
            0 <= row < size.y,
            k == col + row * size.x,
    ;
    let ux = col + (pos.x & 1i32);
    let uy = row + (pos.y & 1i32);
    let sx = pos.x >> 1i32;
    let sy = pos.y >> 1i32;
    assert(ux == (pos.x + col) - 2 * sx);
    assert(uy == (pos.y + row) - 2 * sy);
    assert(ux % 2 == 0 && uy % 2 == 0);
    assert(ux / 2 == (pos.x + col) / 2 - sx);
    assert(uy / 2 == (pos.y + row) / 2 - sy);
    lemma_zoom_even_cell(
        src,
        zoom_source_size(size).x as int,
        spec_world_seed(layer.spec_seed(), seed),
        zoom_source_pos(pos),
        layer.spec_zoom_type(),
        ux,
        uy,
    );
}

/// A cell of the doubled buffer at even column and even row is a source sample.
proof fn lemma_zoom_even_cell<I>(src: Seq<I>, sw: int, world: i64, sp: Pos2, zoom_type: ZoomType, ux: int, uy: int)
    requires
        ux % 2 == 0,
        uy % 2 == 0,
    ensures
        zoom_unaligned(src, sw, world, sp, zoom_type, ux, uy) == src[ux / 2 + (uy / 2) * sw],
{
    reveal(zoom_unaligned);
}

} // verus!

verus! {

/// A value held by more of the four corners than any other value is the one
/// `frequent_or_random` picks, whatever the generator's state.
pub proof fn lemma_frequent_or_random_plurality<T>(pos_seed: i64, i1: T, i2: T, i3: T, i4: T, v: T)
    requires
        is_plurality(v, i1, i2, i3, i4),
    ensures
        spec_frequent_or_random(pos_seed, i1, i2, i3, i4) == v,
        !frequent_needs_draw(i1, i2, i3, i4),
{
}

/// `frequent_or_random` always picks one of its four values.
pub proof fn lemma_frequent_or_random_picks_input<T>(pos_seed: i64, i1: T, i2: T, i3: T, i4: T)
    ensures
        ({
            let r = spec_frequent_or_random(pos_seed, i1, i2, i3, i4);
            r == i1 || r == i2 || r == i3 || r == i4
        }),
{
}

} // verus!

verus! {

/// Every cell of the doubled buffer is one of the four source samples around
/// it.
proof fn lemma_zoom_cell_is_a_sample<I>(src: Seq<I>, sw: int, world: i64, sp: Pos2, zoom_type: ZoomType, ux: int, uy: int)
    ensures
        ({
            let a = ux / 2;
            let b = uy / 2;
            let r = zoom_unaligned(src, sw, world, sp, zoom_type, ux, uy);
            ||| r == src[a + b * sw]
            ||| r == src[a + 1 + b * sw]
            ||| r == src[a + (b + 1) * sw]
            ||| r == src[a + 1 + (b + 1) * sw]
        }),
{
    reveal(zoom_unaligned);
    let a = ux / 2;
    let b = uy / 2;
    let p2 = spec_next_pos(spec_next_pos(zoom_block_seed(world, sp, a, b), world), world);
    lemma_frequent_or_random_picks_input(
        p2,
        src[a + b * sw],
        src[a + 1 + b * sw],
        src[a + (b + 1) * sw],
        src[a + 1 + (b + 1) * sw],
    );
}

/// Zooming a source window that holds one value everywhere gives that value
/// everywhere.
#[verifier::spinoff_prover]
pub proof fn lemma_zoom_of_uniform_source<I>(src: Seq<I>, world: i64, zoom_type: ZoomType, pos: Pos2, size: Size2, v: I)
    requires
        src.len() == zoom_source_size(size).x * zoom_source_size(size).y,
        forall|i: int| 0 <= i < src.len() ==> src[i] == v,
    ensures
        forall|k: int| 0 <= k < size.x * size.y ==> #[trigger] zoom_window(src, world, zoom_type, pos, size)[k] == v,
{
    let sw = zoom_source_size(size).x as int;
    let sh = zoom_source_size(size).y as int;
    lemma_half_u32(size.x);
    lemma_half_u32(size.y);
    lemma_half_i32(pos.x);
    lemma_half_i32(pos.y);
    assert forall|k: int| 0 <= k < size.x * size.y implies #[trigger] zoom_window(src, world, zoom_type, pos, size)[k]
        == v by {
        lemma_row_major_bounds(k, size.x as int, size.y as int);
        let ux = col_of(k, size.x as int) + (pos.x & 1i32);
        let uy = row_of(k, size.x as int) + (pos.y & 1i32);
        let a = ux / 2;
        let b = uy / 2;
        assert(0 <= a <= sw - 2);
        assert(0 <= b <= sh - 2);
        assert(a + 1 + (b + 1) * sw < sw * sh) by (nonlinear_arith)
            requires
                0 <= a <= sw - 2,
                0 <= b <= sh - 2,
        ;
        assert(0 <= a + b * sw <= a + (b + 1) * sw) by (nonlinear_arith)
            requires
                0 <= a,
                0 <= b,
                0 <= sw,
        ;
        lemma_zoom_cell_is_a_sample(src, sw, world, zoom_source_pos(pos), zoom_type, ux, uy);
    }
}

} // verus!

verus! {

/// The source sample at world position (`x`, `z`) of a source window with
/// corner `sp` and width `sw`.
pub open spec fn source_at<I>(src: Seq<I>, sp: Pos2, sw: int, x: int, z: int) -> I {
    src[(x - sp.x) + (z - sp.y) * sw]
}

/// Two source windows agree on the four samples from which the zoom layer
/// draws the cell at world position (`x`, `z`).
pub open spec fn sources_agree_around<I>(
    src1: Seq<I>,
    pos1: Pos2,
    size1: Size2,
    src2: Seq<I>,
    pos2: Pos2,
    size2: Size2,
    x: int,
    z: int,
) -> bool {
    let sp1 = zoom_source_pos(pos1);
    let sp2 = zoom_source_pos(pos2);
    let sw1 = zoom_source_size(size1).x as int;
    let sw2 = zoom_source_size(size2).x as int;
    &&& source_at(src1, sp1, sw1, x / 2, z / 2) == source_at(src2, sp2, sw2, x / 2, z / 2)
    &&& source_at(src1, sp1, sw1, x / 2 + 1, z / 2) == source_at(src2, sp2, sw2, x / 2 + 1, z / 2)
    &&& source_at(src1, sp1, sw1, x / 2, z / 2 + 1) == source_at(src2, sp2, sw2, x / 2, z / 2 + 1)
    &&& source_at(src1, sp1, sw1, x / 2 + 1, z / 2 + 1) == source_at(src2, sp2, sw2, x / 2 + 1, z / 2 + 1)
}

/// Two windows of the zoom layer whose corners lie in the same column pair
/// (`pos.x >> 1` is the same), over sources that agree where they are read,
/// hold the same value at every world position they share, whatever their
/// rows and sizes. Windows whose corners lie in different column pairs may
/// differ: the generator of each two by two block is seeded with the column
/// of the window's corner.
#[verifier::spinoff_prover]
pub proof fn lemma_zoom_window_consistent<I>(
    world: i64,
    zoom_type: ZoomType,
    src1: Seq<I>,
    pos1: Pos2,
    size1: Size2,
    src2: Seq<I>,
    pos2: Pos2,
    size2: Size2,
    x: int,
    z: int,
)
    requires
        pos1.x >> 1i32 == pos2.x >> 1i32,
        pos1.x <= x < pos1.x + size1.x,
        pos1.y <= z < pos1.y + size1.y,
        pos2.x <= x < pos2.x + size2.x,
        pos2.y <= z < pos2.y + size2.y,
        sources_agree_around(src1, pos1, size1, src2, pos2, size2, x, z),
    ensures
        zoom_window(src1, world, zoom_type, pos1, size1)[(x - pos1.x) + (z - pos1.y) * size1.x] == zoom_window(
            src2,
            world,
            zoom_type,
            pos2,
            size2,
        )[(x - pos2.x) + (z - pos2.y) * size2.x],
{
    let k1 = (x - pos1.x) + (z - pos1.y) * size1.x;
    let k2 = (x - pos2.x) + (z - pos2.y) * size2.x;
    lemma_row_major(k1, size1.x as int, z - pos1.y, x - pos1.x);
    lemma_row_major(k2, size2.x as int, z - pos2.y, x - pos2.x);
    assert(0 <= k1 < size1.x * size1.y) by (nonlinear_arith)
        requires
            0 <= x - pos1.x < size1.x,
            0 <= z - pos1.y < size1.y,
            k1 == (x - pos1.x) + (z - pos1.y) * size1.x,
    ;
    assert(0 <= k2 < size2.x * size2.y) by (nonlinear_arith)
        requires
            0 <= x - pos2.x < size2.x,
            0 <= z - pos2.y < size2.y,
            k2 == (x - pos2.x) + (z - pos2.y) * size2.x,
    ;
    lemma_half_i32(pos1.x);
    lemma_half_i32(pos1.y);
    lemma_half_i32(pos2.x);
    lemma_half_i32(pos2.y);
    let sp1 = zoom_source_pos(pos1);
    let sp2 = zoom_source_pos(pos2);
    let sw1 = zoom_source_size(size1).x as int;
    let sw2 = zoom_source_size(size2).x as int;
    let ux1 = (x - pos1.x) + (pos1.x & 1i32);
    let uy1 = (z - pos1.y) + (pos1.y & 1i32);
    let ux2 = (x - pos2.x) + (pos2.x & 1i32);
    let uy2 = (z - pos2.y) + (pos2.y & 1i32);
    assert(ux1 == x - 2 * sp1.x && ux2 == x - 2 * sp2.x);
    assert(uy1 == z - 2 * sp1.y && uy2 == z - 2 * sp2.y);
    let a1 = ux1 / 2;
    let b1 = uy1 / 2;
    let a2 = ux2 / 2;
    let b2 = uy2 / 2;
    assert(a1 == x / 2 - sp1.x && a2 == x / 2 - sp2.x);
    assert(b1 == z / 2 - sp1.y && b2 == z / 2 - sp2.y);
    assert(ux1 % 2 == ux2 % 2 && uy1 % 2 == uy2 % 2);
    assert(zoom_block_seed(world, sp1, a1, b1) == zoom_block_seed(world, sp2, a2, b2));
    assert(src1[a1 + b1 * sw1] == src2[a2 + b2 * sw2]);
    assert(src1[a1 + 1 + b1 * sw1] == src2[a2 + 1 + b2 * sw2]);
    assert(src1[a1 + (b1 + 1) * sw1] == src2[a2 + (b2 + 1) * sw2]);
    assert(src1[a1 + 1 + (b1 + 1) * sw1] == src2[a2 + 1 + (b2 + 1) * sw2]);
    lemma_zoom_unaligned_congruent(world, zoom_type, src1, sw1, sp1, ux1, uy1, src2, sw2, sp2, ux2, uy2);
}

/// Two cells of doubled buffers that are drawn with the same seed from equal
/// samples, at the same place in their blocks, are equal.
proof fn lemma_zoom_unaligned_congruent<I>(
    world: i64,
    zoom_type: ZoomType,
    src1: Seq<I>,
    sw1: int,
    sp1: Pos2,
    ux1: int,
    uy1: int,
    src2: Seq<I>,
    sw2: int,
    sp2: Pos2,
    ux2: int,
    uy2: int,
)
    requires
        ux1 % 2 == ux2 % 2,
        uy1 % 2 == uy2 % 2,
        zoom_block_seed(world, sp1, ux1 / 2, uy1 / 2) == zoom_block_seed(world, sp2, ux2 / 2, uy2 / 2),
        src1[ux1 / 2 + (uy1 / 2) * sw1] == src2[ux2 / 2 + (uy2 / 2) * sw2],
        src1[ux1 / 2 + 1 + (uy1 / 2) * sw1] == src2[ux2 / 2 + 1 + (uy2 / 2) * sw2],
        src1[ux1 / 2 + (uy1 / 2 + 1) * sw1] == src2[ux2 / 2 + (uy2 / 2 + 1) * sw2],
        src1[ux1 / 2 + 1 + (uy1 / 2 + 1) * sw1] == src2[ux2 / 2 + 1 + (uy2 / 2 + 1) * sw2],
    ensures
        zoom_unaligned(src1, sw1, world, sp1, zoom_type, ux1, uy1) == zoom_unaligned(
            src2,
            sw2,
            world,
            sp2,
            zoom_type,
            ux2,
            uy2,
        ),
{
    reveal(zoom_unaligned);
}

} // verus!

verus! {

/// No value is held by more of the four than another: they are pairwise
/// distinct, or they form two pairs of different values.
pub open spec fn four_way_tie<T>(i1: T, i2: T, i3: T, i4: T) -> bool {
    ||| (i1 != i2 && i1 != i3 && i1 != i4 && i2 != i3 && i2 != i4 && i3 != i4)
    ||| (i1 == i2 && i3 == i4 && i1 != i3)
    ||| (i1 == i3 && i2 == i4 && i1 != i2)
    ||| (i1 == i4 && i2 == i3 && i1 != i2)
}

/// On a tie, `frequent_or_random` takes the value that the generator's next
/// draw out of four selects: the first, second, third or fourth value as the
/// bits of the position seed from 24 up are 0, 1, 2 or 3 modulo 4.
pub proof fn lemma_frequent_or_random_tie<T>(pos_seed: i64, i1: T, i2: T, i3: T, i4: T)
    requires
        four_way_tie(i1, i2, i3, i4),
    ensures
        spec_frequent_or_random(pos_seed, i1, i2, i3, i4) == seq![i1, i2, i3, i4][((pos_seed >> 24i64) as int) % 4],
        frequent_needs_draw(i1, i2, i3, i4),
{
    lemma_next_value_positive(pos_seed, 4);
}

/// The diagonal cell of a two by two block of a majority zoom, where the four
/// source samples around it tie, is the sample that the third draw of the
/// block selects: the generator is seeded at the block's position and has
/// drawn twice before.
pub proof fn lemma_majority_zoom_diagonal_tie<I>(src: Seq<I>, sw: int, world: i64, sp: Pos2, a: int, b: int)
    requires
        0 <= a,
        0 <= b,
        four_way_tie(src[a + b * sw], src[a + 1 + b * sw], src[a + (b + 1) * sw], src[a + 1 + (b + 1) * sw]),
    ensures
        ({
            let p2 = spec_next_pos(spec_next_pos(zoom_block_seed(world, sp, a, b), world), world);
            zoom_unaligned(src, sw, world, sp, ZoomType::MAJORITY, 2 * a + 1, 2 * b + 1) == seq![
                src[a + b * sw],
                src[a + 1 + b * sw],
                src[a + (b + 1) * sw],
                src[a + 1 + (b + 1) * sw],
            ][((p2 >> 24i64) as int) % 4]
        }),
{
    reveal(zoom_unaligned);
    let p2 = spec_next_pos(spec_next_pos(zoom_block_seed(world, sp, a, b), world), world);
    assert((2 * a + 1) / 2 == a && (2 * b + 1) / 2 == b);
    assert((2 * a + 1) % 2 == 1 && (2 * b + 1) % 2 == 1);
    lemma_frequent_or_random_tie(
        p2,
        src[a + b * sw],
        src[a + 1 + b * sw],
        src[a + (b + 1) * sw],
        src[a + 1 + (b + 1) * sw],
    );
}

} // verus!

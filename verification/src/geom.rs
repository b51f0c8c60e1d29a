use vstd::prelude::*;

verus! {

/// A position on the horizontal plane, in the coordinates of a layer.
#[derive(Clone, Copy, Debug, PartialEq, Eq, Structural)]
pub struct Pos2 {
    pub x: i32,
    pub y: i32,
}

/// The width and height of a window on the horizontal plane.
#[derive(Clone, Copy, Debug, PartialEq, Eq, Structural)]
pub struct Size2 {
    pub x: u32,
    pub y: u32,
}

/// A cell in a two dimensional grid.
#[derive(Clone, Copy, Debug, PartialEq, Eq, Structural)]
pub struct Pos2u {
    pub x: u32,
    pub y: u32,
}

/// A cell in a three dimensional grid.
#[derive(Clone, Copy, Debug, PartialEq, Eq, Structural)]
pub struct Pos3 {
    pub x: u32,
    pub y: u32,
    pub z: u32,
}

/// The extent of a three dimensional grid.
#[derive(Clone, Copy, Debug, PartialEq, Eq, Structural)]
pub struct Size3 {
    pub x: u32,
    pub y: u32,
    pub z: u32,
}

/// A block position relative to a chunk; it may lie outside the chunk.
#[derive(Clone, Copy, Debug, PartialEq, Eq, Structural)]
pub struct BlockPos {
    pub x: i64,
    pub y: i64,
    pub z: i64,
}

impl Pos2 {
    pub fn new(x: i32, y: i32) -> (p: Pos2)
        ensures
            p.x == x,
            p.y == y,
    {
        Pos2 { x, y }
    }
}

impl Size2 {
    pub fn new(x: u32, y: u32) -> (s: Size2)
        ensures
            s.x == x,
            s.y == y,
    {
        Size2 { x, y }
    }
}

impl Pos2u {
    pub fn new(x: u32, y: u32) -> (p: Pos2u)
        ensures
            p.x == x,
            p.y == y,
    {
        Pos2u { x, y }
    }
}

impl Pos3 {
    pub fn new(x: u32, y: u32, z: u32) -> (p: Pos3)
        ensures
            p.x == x,
            p.y == y,
            p.z == z,
    {
        Pos3 { x, y, z }
    }
}

impl Size3 {
    pub fn new(x: u32, y: u32, z: u32) -> (s: Size3)
        ensures
            s.x == x,
            s.y == y,
            s.z == z,
    {
        Size3 { x, y, z }
    }
}

impl BlockPos {
    pub fn new(x: i64, y: i64, z: i64) -> (p: BlockPos)
        ensures
            p.x == x,
            p.y == y,
            p.z == z,
    {
        BlockPos { x, y, z }
    }
}

/// A window whose cells can be counted in `u32` and whose coordinates,
/// taken in `i32`, neither overflow nor wrap.
pub open spec fn window_ok(pos: Pos2, size: Size2) -> bool {
    &&& size.x * size.y <= u32::MAX
    &&& size.x <= i32::MAX + 1
    &&& size.y <= i32::MAX + 1
    &&& pos.x + size.x <= i32::MAX + 1
    &&& pos.y + size.y <= i32::MAX + 1
}

/// The column of the `k`-th cell of a window of width `w` in row-major order.
pub open spec fn col_of(k: int, w: int) -> int {
    k % w
}

/// The row of the `k`-th cell of a window of width `w` in row-major order.
pub open spec fn row_of(k: int, w: int) -> int {
    k / w
}

/// The cell at row `r` and column `c` of a row-major window of width `w`
/// is its `r * w + c`-th cell.
pub proof fn lemma_row_major(k: int, w: int, r: int, c: int)
    requires
        0 <= c < w,
        k == r * w + c,
    ensures
        col_of(k, w) == c,
        row_of(k, w) == r,
{
    vstd::arithmetic::div_mod::lemma_fundamental_div_mod_converse(k, w, r, c);
}

/// Every cell of a row-major window of `w * h` cells lies in a row below `h`.
pub proof fn lemma_row_major_bounds(k: int, w: int, h: int)
    requires
        0 <= k < w * h,
        0 <= w,
    ensures
        0 <= col_of(k, w) < w,
        0 <= row_of(k, w) < h,
        k == row_of(k, w) * w + col_of(k, w),
{
    assert(w > 0) by (nonlinear_arith)
        requires
            0 <= k < w * h,
            0 <= w,
    ;
    vstd::arithmetic::div_mod::lemma_fundamental_div_mod(k, w);
    vstd::arithmetic::div_mod::lemma_mod_bound(k, w);
    vstd::arithmetic::div_mod::lemma_div_pos_is_pos(k, w);
    assert(k / w < h) by (nonlinear_arith)
        requires
            k == w * (k / w) + k % w,
            0 <= k % w,
            k < w * h,
            w > 0,
    ;
    assert(k == (k / w) * w + k % w) by (nonlinear_arith)
        requires
            k == w * (k / w) + k % w,
    ;
}

} // verus!

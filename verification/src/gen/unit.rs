use vstd::prelude::*;

use crate::geom::{Pos2u, Pos3, Size2, Size3};

verus! {

/// The number of cells of a grid of the given extent.
pub open spec fn volume(size: Size3) -> int {
    size.x * size.y * size.z
}

/// The grid's volume can be computed in `u32`, as `x * y * z`.
pub open spec fn volume_fits(size: Size3) -> bool {
    &&& size.x * size.y <= u32::MAX
    &&& volume(size) <= u32::MAX
}

/// The index of cell (`x`, `y`, `z`) in a grid of extent `size`: `x` runs
/// fastest, then `z`, then `y`.
pub open spec fn spec_to_idx(size: Size3, x: int, y: int, z: int) -> int {
    x + z * size.x + y * size.x * size.z
}

/// The cell with index `idx` in a grid of extent `size`.
pub open spec fn spec_from_idx(size: Size3, idx: int) -> (int, int, int) {
    (idx % (size.x as int), (idx / (size.x as int)) / (size.z as int), (idx / (size.x as int)) % (size.z as int))
}

/// A grid of values, two or three dimensional; a two dimensional grid has a
/// height of one and its second axis in `z`.
pub struct GenUnit<N> {
    pub size: Size3,
    pub data: Vec<N>,
}

impl<N> GenUnit<N> {
    /// The grid holds one value per cell.
    pub open spec fn wf(&self) -> bool {
        &&& volume_fits(self.size)
        &&& self.data@.len() == volume(self.size)
    }

    pub fn new3(size: Size3, default: N) -> (r: GenUnit<N>)
        where
            N: Clone,
        requires
            volume_fits(size),
        ensures
            r.wf(),
            r.size == size,
            forall|i: int| 0 <= i < r.data@.len() ==> cloned(default, #[trigger] r.data@[i]),
    {
        proof {
            assert(0 <= size.x * size.y) by (nonlinear_arith);
        }
        let capacity: usize = (size.x * size.y * size.z) as usize;
        GenUnit { size: size, data: vec![default; capacity] }
    }

    pub fn new2(size: Size2, default: N) -> (r: GenUnit<N>)
        where
            N: Clone,
        requires
            size.x * size.y <= u32::MAX,
        ensures
            r.wf(),
            r.size == (Size3 { x: size.x, y: 1, z: size.y }),
            forall|i: int| 0 <= i < r.data@.len() ==> cloned(default, #[trigger] r.data@[i]),
    {
        GenUnit::new3(Size3 { x: size.x, y: 1, z: size.y }, default)
    }

    pub fn new2_from_vec(size: Size2, data: Vec<N>) -> (r: GenUnit<N>)
        requires
            size.x * size.y <= u32::MAX,
            data@.len() == size.x * size.y,
        ensures
            r.wf(),
            r.size == (Size3 { x: size.x, y: 1, z: size.y }),
            r.data@ == data@,
    {
        GenUnit { size: Size3 { x: size.x, y: 1, z: size.y }, data: data }
    }

    pub fn new3_from_vec(size: Size3, data: Vec<N>) -> (r: GenUnit<N>)
        requires
            volume_fits(size),
            data@.len() == volume(size),
        ensures
            r.wf(),
            r.size == size,
            r.data@ == data@,
    {
        GenUnit { size: size, data: data }
    }

    pub fn to_idx_vec3(&self, pos: Pos3) -> (idx: usize)
        requires
            spec_to_idx(self.size, pos.x as int, pos.y as int, pos.z as int) <= u32::MAX,
            pos.x < self.size.x,
            pos.y < self.size.y,
            pos.z < self.size.z,
        ensures
            idx == spec_to_idx(self.size, pos.x as int, pos.y as int, pos.z as int),
            idx < volume(self.size),
    {
        self.to_idx(pos.x, pos.y, pos.z)
    }

    pub fn to_idx_vec2(&self, pos: Pos2u) -> (idx: usize)
        requires
            spec_to_idx(self.size, pos.x as int, 0, pos.y as int) <= u32::MAX,
            pos.x < self.size.x,
            0 < self.size.y,
            pos.y < self.size.z,
        ensures
            idx == spec_to_idx(self.size, pos.x as int, 0, pos.y as int),
            idx < volume(self.size),
    {
        self.to_idx(pos.x, 0, pos.y)
    }

    pub fn to_idx(&self, x: u32, y: u32, z: u32) -> (idx: usize)
        requires
            spec_to_idx(self.size, x as int, y as int, z as int) <= u32::MAX,
            x < self.size.x,
            y < self.size.y,
            z < self.size.z,
        ensures
            idx == spec_to_idx(self.size, x as int, y as int, z as int),
            idx < volume(self.size),
    {
        proof {
            lemma_to_idx_bound(self.size, x as int, y as int, z as int);
        }
        (x + (z * self.size.x) + (y * self.size.x * self.size.z)) as usize
    }

    pub fn from_idx(&self, idx: usize) -> (p: Pos3)
        requires
            self.size.x > 0,
            self.size.z > 0,
        ensures
            p.x == spec_from_idx(self.size, idx as int).0,
            p.y == spec_from_idx(self.size, idx as int).1 as u32,
            p.z == spec_from_idx(self.size, idx as int).2,
    {
        let mut idx = idx;
        let x = idx % self.size.x as usize;
        idx /= self.size.x as usize;
        let z = idx % self.size.z as usize;
        idx /= self.size.z as usize;
        let y = idx;
        Pos3 { x: x as u32, y: y as u32, z: z as u32 }
    }

    /// The value at index `idx`.
    pub fn index(&self, idx: usize) -> (r: &N)
        requires
            idx < self.data@.len(),
        ensures
            *r == self.data@[idx as int],
    {
        &self.data[idx]
    }

    /// The value at index `idx`, to change in place.
    pub fn index_mut(&mut self, idx: usize) -> (r: &mut N)
        requires
            idx < old(self).data@.len(),
        ensures
            *r == old(self).data@[idx as int],
            final(self).size == old(self).size,
            final(self).data@ == old(self).data@.update(idx as int, *final(r)),
    {
        &mut self.data[idx]
    }

    /// The value at cell `pos`.
    pub fn index3(&self, pos: Pos3) -> (r: &N)
        requires
            pos.x < self.size.x,
            pos.y < self.size.y,
            pos.z < self.size.z,
            spec_to_idx(self.size, pos.x as int, pos.y as int, pos.z as int) <= u32::MAX,
            spec_to_idx(self.size, pos.x as int, pos.y as int, pos.z as int) < self.data@.len(),
        ensures
            *r == self.data@[spec_to_idx(self.size, pos.x as int, pos.y as int, pos.z as int)],
    {
        let idx = self.to_idx_vec3(pos);
        &self.data[idx]
    }

    /// The value at cell `pos`, to change in place.
    pub fn index3_mut(&mut self, pos: Pos3) -> (r: &mut N)
        requires
            pos.x < old(self).size.x,
            pos.y < old(self).size.y,
            pos.z < old(self).size.z,
            spec_to_idx(old(self).size, pos.x as int, pos.y as int, pos.z as int) <= u32::MAX,
            spec_to_idx(old(self).size, pos.x as int, pos.y as int, pos.z as int) < old(self).data@.len(),
        ensures
            *r == old(self).data@[spec_to_idx(old(self).size, pos.x as int, pos.y as int, pos.z as int)],
            final(self).size == old(self).size,
            final(self).data@ == old(self).data@.update(
                spec_to_idx(old(self).size, pos.x as int, pos.y as int, pos.z as int),
                *final(r),
            ),
    {
        let idx = self.to_idx_vec3(pos);
        &mut self.data[idx]
    }

    /// The value at cell `pos` of a two dimensional grid.
    pub fn index2(&self, pos: Pos2u) -> (r: &N)
        requires
            pos.x < self.size.x,
            0 < self.size.y,
            pos.y < self.size.z,
            spec_to_idx(self.size, pos.x as int, 0, pos.y as int) <= u32::MAX,
            spec_to_idx(self.size, pos.x as int, 0, pos.y as int) < self.data@.len(),
        ensures
            *r == self.data@[spec_to_idx(self.size, pos.x as int, 0, pos.y as int)],
    {
        let idx = self.to_idx_vec2(pos);
        &self.data[idx]
    }

    /// The value at cell `pos` of a two dimensional grid, to change in place.
    pub fn index2_mut(&mut self, pos: Pos2u) -> (r: &mut N)
        requires
            pos.x < old(self).size.x,
            0 < old(self).size.y,
            pos.y < old(self).size.z,
            spec_to_idx(old(self).size, pos.x as int, 0, pos.y as int) <= u32::MAX,
            spec_to_idx(old(self).size, pos.x as int, 0, pos.y as int) < old(self).data@.len(),
        ensures
            *r == old(self).data@[spec_to_idx(old(self).size, pos.x as int, 0, pos.y as int)],
            final(self).size == old(self).size,
            final(self).data@ == old(self).data@.update(spec_to_idx(old(self).size, pos.x as int, 0, pos.y as int), *final(r)),
    {
        let idx = self.to_idx_vec2(pos);
        &mut self.data[idx]
    }

    pub fn len(&self) -> (n: usize)
        ensures
            n == self.data@.len(),
    {
        self.data.len()
    }

    pub fn size2(&self) -> (s: Size2)
        ensures
            s == (Size2 { x: self.size.x, y: self.size.z }),
    {
        Size2 { x: self.size.x, y: self.size.z }
    }
}

/// An index computed for a cell inside the grid is below the grid's volume.
proof fn lemma_to_idx_bound(size: Size3, x: int, y: int, z: int)
    requires
        0 <= x < size.x,
        0 <= y < size.y,
        0 <= z < size.z,
    ensures
        0 <= x + z * size.x <= x + z * size.x + y * size.x * size.z,
        y * size.x <= size.x * size.y,
        spec_to_idx(size, x, y, z) < volume(size),
        0 <= z * size.x,
        0 <= y * size.x * size.z,
        y * size.x <= y * size.x * size.z,
{
    assert(y * size.x <= y * size.x * size.z) by (nonlinear_arith)
        requires
            0 <= y,
            0 <= size.x,
            1 <= size.z,
    ;
    assert(0 <= z * size.x) by (nonlinear_arith)
        requires
            0 <= z,
            0 <= size.x,
    ;
    assert(0 <= y * size.x * size.z) by (nonlinear_arith)
        requires
            0 <= y,
            0 <= size.x,
            0 <= size.z,
    ;
    assert(y * size.x <= size.x * size.y) by (nonlinear_arith)
        requires
            0 <= y < size.y,
            0 <= size.x,
    ;
    assert(x + z * size.x < size.x * size.z) by (nonlinear_arith)
        requires
            0 <= x < size.x,
            0 <= z < size.z,
    ;
    assert(y * size.x * size.z + size.x * size.z <= size.x * size.y * size.z) by (nonlinear_arith)
        requires
            0 <= y < size.y,
            0 <= size.x,
            0 <= size.z,
    ;
}

/// Going from a cell to its index and back gives the cell.
pub proof fn lemma_from_idx_to_idx(size: Size3, x: int, y: int, z: int)
    requires
        0 <= x < size.x,
        0 <= y < size.y,
        0 <= z < size.z,
    ensures
        spec_from_idx(size, spec_to_idx(size, x, y, z)) == (x, y, z),
{
    let idx = spec_to_idx(size, x, y, z);
    let q = z + y * size.z;
    assert(idx == q * size.x + x) by (nonlinear_arith)
        requires
            idx == x + z * size.x + y * size.x * size.z,
            q == z + y * size.z,
    ;
    vstd::arithmetic::div_mod::lemma_fundamental_div_mod_converse(idx, size.x as int, q, x);
    vstd::arithmetic::div_mod::lemma_fundamental_div_mod_converse(q, size.z as int, y, z);
}

/// Going from an index inside the grid to its cell and back gives the index.
#[verifier::spinoff_prover]
pub proof fn lemma_to_idx_from_idx(size: Size3, idx: int)
    requires
        0 <= idx < volume(size),
    ensures
        ({
            let (x, y, z) = spec_from_idx(size, idx);
            &&& 0 <= x < size.x
            &&& 0 <= y < size.y
            &&& 0 <= z < size.z
            &&& spec_to_idx(size, x, y, z) == idx
        }),
{
    assert(size.x > 0 && size.z > 0 && size.y > 0) by (nonlinear_arith)
        requires
            0 <= idx < size.x * size.y * size.z,
            size.x >= 0,
            size.y >= 0,
            size.z >= 0,
    ;
    let q = idx / (size.x as int);
    let x = idx % (size.x as int);
    let y = q / (size.z as int);
    let z = q % (size.z as int);
    vstd::arithmetic::div_mod::lemma_fundamental_div_mod(idx, size.x as int);
    vstd::arithmetic::div_mod::lemma_fundamental_div_mod(q, size.z as int);
    vstd::arithmetic::div_mod::lemma_mod_bound(idx, size.x as int);
    vstd::arithmetic::div_mod::lemma_mod_bound(q, size.z as int);
    vstd::arithmetic::div_mod::lemma_div_pos_is_pos(idx, size.x as int);
    vstd::arithmetic::div_mod::lemma_div_pos_is_pos(q, size.z as int);
    assert(idx == x + z * size.x + y * size.x * size.z) by (nonlinear_arith)
        requires
            idx == size.x * q + x,
            q == size.z * y + z,
    ;
    assert(y < size.y) by (nonlinear_arith)
        requires
            idx == x + z * size.x + y * size.x * size.z,
            idx < size.x * size.y * size.z,
            0 <= x,
            0 <= z,
            size.x > 0,
            size.z > 0,
    ;
}

} // verus!

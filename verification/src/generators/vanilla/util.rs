use vstd::prelude::*;

verus! {

/// The index of a sample in a height field of 5 by 33 by 5 samples.
pub open spec fn spec_height_field_idx(x: int, y: int, z: int) -> int {
    x + z * 5 + y * 5 * 5
}

/// The index of a block in a chunk of 16 by 256 by 16 blocks, with each
/// coordinate wrapped into the chunk.
pub open spec fn spec_chunk_data_idx(x: int, y: int, z: int) -> int {
    x % 16 + 16 * (z % 16) + 256 * (y % 256)
}

pub fn height_field_idx(x: u32, y: u32, z: u32) -> (idx: usize)
    requires
        spec_height_field_idx(x as int, y as int, z as int) <= u32::MAX,
    ensures
        idx == spec_height_field_idx(x as int, y as int, z as int),
{
    (x + (z * 5) + (y * 5 * 5)) as usize
}

pub fn chunk_data_idx(x: u32, y: u32, z: u32) -> (idx: usize)
    ensures
        idx == spec_chunk_data_idx(x as int, y as int, z as int),
        idx < 65536,
{
    let r: u32 = (x & 15) | ((z & 15) << 4) | (y & 255) << 8;
    assert(r == x % 16 + 16 * (z % 16) + 256 * (y % 256)) by (bit_vector)
        requires
            r == (x & 15) | ((z & 15) << 4) | (y & 255) << 8,
    ;
    r as usize
}

} // verus!

verus! {

/// A chunk's blocks are laid out as a grid of 16 by 256 by 16 cells: the
/// chunk index of a block is its grid index.
pub proof fn lemma_chunk_layout_is_grid_layout(x: int, y: int, z: int)
    requires
        0 <= x < 16,
        0 <= y < 256,
        0 <= z < 16,
    ensures
        spec_chunk_data_idx(x, y, z) == crate::gen::unit::spec_to_idx(
            crate::geom::Size3 { x: 16, y: 256, z: 16 },
            x,
            y,
            z,
        ),
{
}

} // verus!

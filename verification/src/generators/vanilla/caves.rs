use vstd::prelude::*;

use crate::geom::BlockPos;
use crate::rnd::{spec_mix, RngBuilder, INIT_VAL};

verus! {

/// The salt mixed into the seed of each chunk's cave generator.
pub const CAVE_GEN_RAND_SALT: u64 = 87462348731267;
/// How far, in chunks, caves reach into neighbouring chunks.
pub const RANGE_CHUNKS: u32 = 8;

pub const BLOCK_AIR: u8 = 0;
pub const BLOCK_STONE: u8 = 1;
pub const BLOCK_GRASS: u8 = 2;
pub const BLOCK_DIRT: u8 = 3;
pub const BLOCK_FLOWING_WATER: u8 = 8;
pub const BLOCK_WATER: u8 = 9;
pub const BLOCK_FLOWING_LAVA: u8 = 10;
pub const BLOCK_LAVA: u8 = 11;
pub const BLOCK_SAND: u8 = 12;
pub const BLOCK_GRAVEL: u8 = 13;
pub const BLOCK_SANDSTONE: u8 = 24;
pub const BLOCK_SNOW_LAYER: u8 = 78;
pub const BLOCK_MYCELIUM: u8 = 110;
pub const BLOCK_STAINED_HARDENED_CLAY: u8 = 159;
pub const BLOCK_HARDENED_CLAY: u8 = 172;
pub const BLOCK_RED_SANDSTONE: u8 = 179;

/// The state of the builder of the cave generator of chunk (`x`, `z`).
pub open spec fn cave_builder_state(world_seed: u32, x: i32, z: i32) -> u64 {
    spec_mix(spec_mix(spec_mix(spec_mix(INIT_VAL, world_seed as u64), CAVE_GEN_RAND_SALT), x as u64), z as u64)
}

/// The builder of the cave generator of chunk (`x`, `z`): the world seed, the
/// caves' salt and the chunk's two coordinates mixed in, in that order.
pub fn cave_rng_builder(world_seed: u32, x: i32, z: i32) -> (r: RngBuilder)
    ensures
        r.spec_state() == cave_builder_state(world_seed, x, z),
{
    RngBuilder::init().mix(world_seed as u64).mix(CAVE_GEN_RAND_SALT).mix(x as u64).mix(z as u64)
}

/// The chunk index of a block, before it is taken as a `usize`.
pub open spec fn spec_chunk_idx(x: int, y: int, z: int) -> int {
    x + z * 16 + y * 16 * 16
}

/// `get_chunk_idx` can compute the index in `i64` without overflow.
pub open spec fn chunk_idx_fits(x: int, y: int, z: int) -> bool {
    &&& i64::MIN <= z * 16 <= i64::MAX
    &&& i64::MIN <= y * 16 * 16 <= i64::MAX
    &&& i64::MIN <= x + z * 16 <= i64::MAX
    &&& i64::MIN <= spec_chunk_idx(x, y, z) <= i64::MAX
}

/// The block lies in a chunk of `len` blocks.
pub open spec fn in_chunk(len: int, x: int, y: int, z: int) -> bool {
    &&& chunk_idx_fits(x, y, z)
    &&& 0 <= spec_chunk_idx(x, y, z) < len
}

pub fn get_chunk_idx(pos_x: i64, pos_y: i64, pos_z: i64) -> (idx: usize)
    requires
        chunk_idx_fits(pos_x as int, pos_y as int, pos_z as int),
    ensures
        idx == spec_chunk_idx(pos_x as int, pos_y as int, pos_z as int) as usize,
        0 <= spec_chunk_idx(pos_x as int, pos_y as int, pos_z as int) <= usize::MAX ==> idx as int == spec_chunk_idx(
            pos_x as int,
            pos_y as int,
            pos_z as int,
        ),
{
    (pos_x + (pos_z * 16) + (pos_y * 16 * 16)) as usize
}

/// The kinds of block a cave may carve: stone, dirt, grass and mycelium,
/// hardened clay (stained or not), sandstone (normal or red), thin snow, sand
/// and gravel.
pub open spec fn spec_carvable_kind(block: u8) -> bool {
    ||| block == BLOCK_STONE
    ||| block == BLOCK_DIRT
    ||| block == BLOCK_GRASS
    ||| block == BLOCK_MYCELIUM
    ||| block == BLOCK_HARDENED_CLAY
    ||| block == BLOCK_STAINED_HARDENED_CLAY
    ||| block == BLOCK_SANDSTONE
    ||| block == BLOCK_RED_SANDSTONE
    ||| block == BLOCK_SNOW_LAYER
    ||| block == BLOCK_SAND
    ||| block == BLOCK_GRAVEL
}

/// Whether a cave may carve out a block: it is of a carvable kind and the
/// block above it is not water.
pub open spec fn spec_block_is_carvable(curr: u8, above: u8) -> bool {
    spec_carvable_kind(curr) && above != BLOCK_WATER && above != BLOCK_FLOWING_WATER
}

/// Whether a cave may carve out the block `curr` under the block `above`:
/// `curr` is stone, dirt, grass, mycelium, hardened clay (stained or not),
/// sandstone (normal or red), thin snow, sand or gravel, and `above` is not
/// water.
pub fn block_is_carvable(curr: u8, above: u8) -> (r: bool)
    ensures
        r == spec_block_is_carvable(curr, above),
{
    let kind = curr == BLOCK_STONE || curr == BLOCK_DIRT || curr == BLOCK_GRASS || curr == BLOCK_MYCELIUM
        || curr == BLOCK_HARDENED_CLAY || curr == BLOCK_STAINED_HARDENED_CLAY || curr == BLOCK_SANDSTONE
        || curr == BLOCK_RED_SANDSTONE || curr == BLOCK_SNOW_LAYER || curr == BLOCK_SAND || curr == BLOCK_GRAVEL;
    kind && above != BLOCK_WATER && above != BLOCK_FLOWING_WATER
}

/// The block is water, still or flowing.
pub open spec fn is_water(block: u8) -> bool {
    block == BLOCK_WATER || block == BLOCK_FLOWING_WATER
}

/// Every block of the box from `start` (included) to `end` (excluded) whose
/// height is in `0..256` lies in a chunk of `len` blocks.
pub open spec fn box_in_chunk(len: int, start: BlockPos, end: BlockPos) -> bool {
    forall|x: int, y: int, z: int|
        start.x <= x < end.x && start.y <= y < end.y && start.z <= z < end.z && 0 <= y < 256 ==> #[trigger] in_chunk(
            len,
            x,
            y,
            z,
        )
}

/// Some block of the box, at a height in `0..256`, is water.
pub open spec fn box_has_water(data: Seq<u8>, start: BlockPos, end: BlockPos) -> bool {
    exists|x: int, y: int, z: int|
        start.x <= x < end.x && start.y <= y < end.y && start.z <= z < end.z && 0 <= y < 256 && is_water(
            #[trigger] data[spec_chunk_idx(x, y, z)],
        )
}

/// Whether any block of the box, at a height in `0..256`, is water.
#[verifier::spinoff_prover]
pub fn scan_water(chunk_data: &Vec<u8>, carve_box_start: BlockPos, carve_box_end: BlockPos) -> (r: bool)
    requires
        box_in_chunk(chunk_data@.len() as int, carve_box_start, carve_box_end),
    ensures
        r == box_has_water(chunk_data@, carve_box_start, carve_box_end),
{
    let ghost data = chunk_data@;
    let len = chunk_data.len();
    let ghost start = carve_box_start;
    let ghost end = carve_box_end;
    let mut curr_x = carve_box_start.x;
    while curr_x < carve_box_end.x
        invariant
            box_in_chunk(data.len() as int, start, end),
            data == chunk_data@,
            len == data.len(),
            start == carve_box_start,
            end == carve_box_end,
            start.x <= curr_x,
            forall|x: int, y: int, z: int|
                start.x <= x < curr_x && start.y <= y < end.y && start.z <= z < end.z && 0 <= y < 256
                    ==> !is_water(#[trigger] data[spec_chunk_idx(x, y, z)]),
        decreases end.x - curr_x,
    {
        let mut curr_z = carve_box_start.z;
        while curr_z < carve_box_end.z
            invariant
                box_in_chunk(data.len() as int, start, end),
                data == chunk_data@,
            len == data.len(),
                start == carve_box_start,
                end == carve_box_end,
                start.x <= curr_x < end.x,
                start.z <= curr_z,
                forall|x: int, y: int, z: int|
                    start.x <= x < curr_x && start.y <= y < end.y && start.z <= z < end.z && 0 <= y < 256
                        ==> !is_water(#[trigger] data[spec_chunk_idx(x, y, z)]),
                forall|y: int, z: int|
                    start.y <= y < end.y && start.z <= z < curr_z && 0 <= y < 256 ==> !is_water(
                        #[trigger] data[spec_chunk_idx(curr_x as int, y, z)],
                    ),
            decreases end.z - curr_z,
        {
            let mut curr_y = carve_box_start.y;
            while curr_y < carve_box_end.y
                invariant
                    box_in_chunk(data.len() as int, start, end),
                    data == chunk_data@,
            len == data.len(),
                    start == carve_box_start,
                    end == carve_box_end,
                    start.x <= curr_x < end.x,
                    start.z <= curr_z < end.z,
                    start.y <= curr_y,
                    forall|x: int, y: int, z: int|
                        start.x <= x < curr_x && start.y <= y < end.y && start.z <= z < end.z && 0 <= y < 256
                            ==> !is_water(#[trigger] data[spec_chunk_idx(x, y, z)]),
                    forall|y: int, z: int|
                        start.y <= y < end.y && start.z <= z < curr_z && 0 <= y < 256 ==> !is_water(
                            #[trigger] data[spec_chunk_idx(curr_x as int, y, z)],
                        ),
                    forall|y: int|
                        start.y <= y < curr_y && 0 <= y < 256 ==> !is_water(
                            #[trigger] data[spec_chunk_idx(curr_x as int, y, curr_z as int)],
                        ),
                decreases end.y - curr_y,
            {
                if curr_y >= 0 && curr_y < 256 {
                    assert(in_chunk(data.len() as int, curr_x as int, curr_y as int, curr_z as int));
                    let idx = get_chunk_idx(curr_x, curr_y, curr_z);
                    let block = chunk_data[idx];
                    if block == BLOCK_WATER || block == BLOCK_FLOWING_WATER {
                        assert(is_water(data[spec_chunk_idx(curr_x as int, curr_y as int, curr_z as int)]));
                        return true;
                    }
                }
                curr_y = curr_y + 1;
            }
            curr_z = curr_z + 1;
        }
        curr_x = curr_x + 1;
    }
    false
}

} // verus!

verus! {

/// The chunk a cave carves after one block at (`x`, `y`, `z`) is visited,
/// and whether grass has been met in its column so far.
pub open spec fn spec_carve_block(data: Seq<u8>, x: int, y: int, z: int, hit_grass: bool) -> (Seq<u8>, bool) {
    let c = spec_chunk_idx(x, y, z);
    let o = spec_chunk_idx(x, y + 1, z);
    let u = spec_chunk_idx(x, y - 1, z);
    let hit = hit_grass || data[c] == BLOCK_GRASS;
    if !spec_block_is_carvable(data[c], data[o]) {
        (data, hit)
    } else if y < 10 {
        (data.update(c, BLOCK_LAVA), hit)
    } else {
        let carved = data.update(c, BLOCK_AIR);
        if hit && data[u] == BLOCK_DIRT {
            (carved.update(u, BLOCK_GRASS), hit)
        } else {
            (carved, hit)
        }
    }
}

/// The inputs on which `carve_block` is defined: the block and the one above
/// it lie in the chunk, and the one below it where it is read.
pub open spec fn carve_block_ok(data: Seq<u8>, x: int, y: int, z: int, hit_grass: bool) -> bool {
    let c = spec_chunk_idx(x, y, z);
    let o = spec_chunk_idx(x, y + 1, z);
    &&& in_chunk(data.len() as int, x, y, z)
    &&& in_chunk(data.len() as int, x, y + 1, z)
    &&& chunk_idx_fits(x, y - 1, z)
    &&& (spec_block_is_carvable(data[c], data[o]) && y >= 10 && (hit_grass || data[c] == BLOCK_GRASS)) ==> in_chunk(
        data.len() as int,
        x,
        y - 1,
        z,
    )
}

/// Carves the block at (`x`, `y`, `z`) out of a chunk when the block above is
/// not water: it becomes lava below height 10 and air elsewhere, and dirt
/// under it turns to grass once the column has met grass. Returns whether
/// grass has been met in the column.
pub fn carve_block(chunk_data: &mut Vec<u8>, curr_x: i64, curr_y: i64, curr_z: i64, hit_grass: bool) -> (hit: bool)
    requires
        carve_block_ok(old(chunk_data)@, curr_x as int, curr_y as int, curr_z as int, hit_grass),
    ensures
        (final(chunk_data)@, hit) == spec_carve_block(
            old(chunk_data)@,
            curr_x as int,
            curr_y as int,
            curr_z as int,
            hit_grass,
        ),
{
    let len = chunk_data.len();
    let curr_idx = get_chunk_idx(curr_x, curr_y, curr_z);
    let over_idx = get_chunk_idx(curr_x, curr_y + 1, curr_z);
    let under_idx = get_chunk_idx(curr_x, curr_y - 1, curr_z);
    let block_curr = chunk_data[curr_idx];
    let block_over = chunk_data[over_idx];

    let mut hit_grass = hit_grass;
    if block_curr == BLOCK_GRASS {
        hit_grass = true;
    }
    if block_is_carvable(block_curr, block_over) {
        if curr_y < 10 {
            chunk_data.set(curr_idx, BLOCK_LAVA);
        } else {
            chunk_data.set(curr_idx, BLOCK_AIR);
            if hit_grass && chunk_data[under_idx] == BLOCK_DIRT {
                chunk_data.set(under_idx, BLOCK_GRASS);
            }
        }
    }
    hit_grass
}

/// The box that `clamp_carve_box` makes of `start` and `end`.
pub open spec fn spec_clamp_carve_box(start: BlockPos, end: BlockPos) -> (BlockPos, BlockPos) {
    (
        BlockPos {
            x: if start.x < 0 { 0 } else { start.x },
            y: if start.y < 1 { 1 } else { start.y },
            z: if start.z < 0 { 0 } else { start.z },
        },
        BlockPos {
            x: if end.x > 16 { 16 } else { end.x },
            y: if end.y > 248 { 248 } else { end.y },
            z: if end.z > 16 { 16 } else { end.z },
        },
    )
}

/// Shrinks a carving box to the part of the chunk a cave may carve: the
/// chunk's 16 by 16 columns, between heights 1 and 248.
pub fn clamp_carve_box(carve_box_start: BlockPos, carve_box_end: BlockPos) -> (r: (BlockPos, BlockPos))
    ensures
        r == spec_clamp_carve_box(carve_box_start, carve_box_end),
{
    let mut start = carve_box_start;
    let mut end = carve_box_end;
    if start.x < 0 {
        start.x = 0
    }
    if start.y < 1 {
        start.y = 1
    }
    if start.z < 0 {
        start.z = 0
    }
    if end.x > 16 {
        end.x = 16
    }
    if end.y > 248 {
        end.y = 248
    }
    if end.z > 16 {
        end.z = 16
    }
    (start, end)
}

/// A clamped carving box lies in a chunk of 16 by 256 by 16 blocks, and so
/// do the blocks above and below each of its blocks: scanning it for water
/// and carving any of its blocks is always defined.
pub proof fn lemma_clamped_box_in_chunk(start: BlockPos, end: BlockPos, data: Seq<u8>, x: int, y: int, z: int, hit_grass: bool)
    requires
        data.len() == 65536,
    ensures
        box_in_chunk(65536, spec_clamp_carve_box(start, end).0, spec_clamp_carve_box(start, end).1),
        ({
            let (s, e) = spec_clamp_carve_box(start, end);
            s.x <= x < e.x && s.y <= y < e.y && s.z <= z < e.z ==> carve_block_ok(data, x, y, z, hit_grass)
        }),
{
}

} // verus!

verus! {

/// Carving one block: grass met in the column stays met (the returned flag is
/// true when it came in true or the block is grass, false otherwise); a block
/// that is not carvable, or lies under water, leaves the chunk as it was; a
/// carvable block becomes lava below height 10 and air from there up, and
/// then the dirt under it turns to grass exactly when grass has been met.
pub proof fn lemma_carve_block_effect(data: Seq<u8>, x: int, y: int, z: int, hit_grass: bool)
    requires
        carve_block_ok(data, x, y, z, hit_grass),
    ensures
        ({
            let (new, hit) = spec_carve_block(data, x, y, z, hit_grass);
            let c = spec_chunk_idx(x, y, z);
            let u = spec_chunk_idx(x, y - 1, z);
            let carvable = spec_carvable_kind(data[c]) && !is_water(data[spec_chunk_idx(x, y + 1, z)]);
            let met = hit_grass || data[c] == BLOCK_GRASS;
            &&& hit_grass ==> hit
            &&& data[c] == BLOCK_GRASS ==> hit
            &&& !hit_grass && data[c] != BLOCK_GRASS ==> !hit
            &&& new.len() == data.len()
            &&& !carvable ==> new == data
            &&& carvable && y < 10 ==> new == data.update(c, BLOCK_LAVA)
            &&& carvable && y >= 10 ==> new[c] == BLOCK_AIR
            &&& carvable && y >= 10 && met && data[u] == BLOCK_DIRT ==> new == data.update(c, BLOCK_AIR).update(
                u,
                BLOCK_GRASS,
            )
            &&& carvable && y >= 10 && !(met && data[u] == BLOCK_DIRT) ==> new == data.update(c, BLOCK_AIR)
        }),
{
}

} // verus!

verus! {

/// The builder of a chunk's cave generator mixes in the world seed as a
/// non-negative number and each chunk coordinate as the 64 bit two's
/// complement of its value (its value modulo 2^64, so a negative coordinate
/// `x` is mixed in as `x + 2^64`).
pub proof fn lemma_cave_builder_mixes_coordinates(world_seed: u32, x: i32, z: i32)
    ensures
        cave_builder_state(world_seed, x, z) == spec_mix(
            spec_mix(
                spec_mix(spec_mix(INIT_VAL, world_seed as int as u64), CAVE_GEN_RAND_SALT),
                ((x as int) % 0x1_0000_0000_0000_0000) as u64,
            ),
            ((z as int) % 0x1_0000_0000_0000_0000) as u64,
        ),
{
    lemma_i32_as_u64(x);
    lemma_i32_as_u64(z);
}

/// An `i32` taken as a `u64` is its value modulo 2^64.
proof fn lemma_i32_as_u64(x: i32)
    ensures
        (x as u64) as int == (x as int) % 0x1_0000_0000_0000_0000,
{
    if x >= 0 {
        assert((x as u64) as int == x as int) by (bit_vector)
            requires
                x >= 0,
        ;
    } else {
        assert((x as u64) as int == x as int + 0x1_0000_0000_0000_0000) by (bit_vector)
            requires
                x < 0,
        ;
        vstd::arithmetic::div_mod::lemma_fundamental_div_mod_converse(
            x as int,
            0x1_0000_0000_0000_0000,
            -1,
            x as int + 0x1_0000_0000_0000_0000,
        );
    }
}

} // verus!

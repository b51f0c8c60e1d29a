use vstd::prelude::*;

use super::constants::SEA_LEVEL;
use super::util::{chunk_data_idx, spec_chunk_data_idx};
use crate::rnd::{xorshift_draw, xorshift_from_seed, xorshift_gen_range_u32};

verus! {

/// Mixed into the seed of every column's generator.
pub const BIOME_BLOCK_MUTATE_SEED: u32 = 77236476;

pub const BLOCK_AIR: u8 = 0;
pub const BLOCK_STONE: u8 = 1;
pub const BLOCK_GRASS: u8 = 2;
pub const BLOCK_DIRT: u8 = 3;
pub const BLOCK_BEDROCK: u8 = 7;

/// One step down a column: the block at height `y` given the number `draw`
/// drawn for it and the topsoil counter left by the block above; returns the
/// new block and the counter for the block below.
pub open spec fn column_step(block: u8, y: int, draw: u32, counter: i8) -> (u8, i8) {
    if y <= draw {
        (BLOCK_BEDROCK, counter)
    } else if block == BLOCK_AIR {
        (block, -1i8)
    } else if block == BLOCK_STONE {
        if counter == -1 {
            (if y >= SEA_LEVEL - 1 { BLOCK_GRASS } else { BLOCK_DIRT }, 3i8)
        } else if counter > 0 {
            (BLOCK_DIRT, (counter - 1) as i8)
        } else {
            (block, counter)
        }
    } else {
        (block, counter)
    }
}

/// The number drawn for height `y`; numbers are drawn from the top down.
pub open spec fn draw_at(draws: Seq<u32>, y: int) -> u32 {
    draws[255 - y]
}

/// The topsoil counter when the walk down the column `col` reaches height `y`.
pub open spec fn counter_above(col: Seq<u8>, draws: Seq<u32>, y: int) -> i8
    decreases 255 - y,
{
    if y >= 255 {
        -1i8
    } else {
        column_step(col[y + 1], y + 1, draw_at(draws, y + 1), counter_above(col, draws, y + 1)).1
    }
}

/// The block at height `y` after the walk down the column `col`.
pub open spec fn column_cell(col: Seq<u8>, draws: Seq<u32>, y: int) -> u8 {
    column_step(col[y], y, draw_at(draws, y), counter_above(col, draws, y)).0
}

/// The column at (`x`, `z`) of a chunk, bottom to top.
pub open spec fn column_of(blocks: Seq<u8>, x: int, z: int) -> Seq<u8> {
    Seq::new(256, |y: int| blocks[spec_chunk_data_idx(x, y, z)])
}

/// The index of the column's blocks modulo 256.
pub open spec fn column_base(x: int, z: int) -> int {
    x % 16 + 16 * (z % 16)
}

/// `new` is `old` with the column at (`x`, `z`) walked down with `draws`.
pub open spec fn column_mutated(old: Seq<u8>, new: Seq<u8>, x: int, z: int, draws: Seq<u32>) -> bool {
    forall|y: int| 0 <= y < 256 ==> #[trigger] new[spec_chunk_data_idx(x, y, z)] == column_cell(column_of(old, x, z), draws, y)
}

/// A number was drawn for each of the 256 heights, each in `0..5`.
pub open spec fn draws_ok(draws: Seq<u32>) -> bool {
    &&& draws.len() == 256
    &&& forall|k: int| 0 <= k < 256 ==> #[trigger] draws[k] < 5
}

/// `new` differs from `old` at most in the column with base `c`.
pub open spec fn only_column_changed(old: Seq<u8>, new: Seq<u8>, c: int) -> bool {
    &&& new.len() == old.len()
    &&& forall|i: int| 0 <= i < old.len() && (i % 256 != c || i >= 65536) ==> #[trigger] new[i] == old[i]
}

/// The blocks of a column sit at its base plus a multiple of 256.
proof fn lemma_column_index(x: int, y: int, z: int)
    requires
        0 <= x,
        0 <= z,
        0 <= y < 256,
    ensures
        spec_chunk_data_idx(x, y, z) == column_base(x, z) + 256 * y,
        spec_chunk_data_idx(x, y, z) % 256 == column_base(x, z),
        0 <= column_base(x, z) < 256,
        spec_chunk_data_idx(x, y, z) < 65536,
{
    vstd::arithmetic::div_mod::lemma_fundamental_div_mod_converse(
        spec_chunk_data_idx(x, y, z),
        256,
        y,
        column_base(x, z),
    );
}

/// Walks down the column at (`x`, `z`) of a chunk, from the top: a block at a
/// height not above the number drawn for it becomes bedrock; the first stone
/// under air (or at the top) becomes grass at or above sea level minus one and
/// dirt below it, and the three stone blocks under that become dirt.
#[verifier::spinoff_prover]
pub fn mutate_column_with_draws(blocks: &mut Vec<u8>, x: u32, z: u32, draws: &Vec<u32>)
    requires
        draws@.len() == 256,
        old(blocks)@.len() > spec_chunk_data_idx(x as int, 255, z as int),
    ensures
        column_mutated(old(blocks)@, final(blocks)@, x as int, z as int, draws@),
        only_column_changed(old(blocks)@, final(blocks)@, column_base(x as int, z as int)),
{
    let ghost old_blocks = blocks@;
    let ghost col = column_of(old_blocks, x as int, z as int);
    let ghost c = column_base(x as int, z as int);
    proof {
        lemma_column_index(x as int, 255, z as int);
    }
    let mut topsoil_counter: i8 = -1;
    let mut k: u32 = 0;
    while k < 256
        invariant
            draws@.len() == 256,
            old_blocks.len() > spec_chunk_data_idx(x as int, 255, z as int),
            col == column_of(old_blocks, x as int, z as int),
            c == column_base(x as int, z as int),
            0 <= c < 256,
            spec_chunk_data_idx(x as int, 255, z as int) == c + 256 * 255,
            k <= 256,
            topsoil_counter == counter_above(col, draws@, 255 - k),
            only_column_changed(old_blocks, blocks@, c),
            forall|y: int|
                255 - k < y < 256 ==> #[trigger] blocks@[spec_chunk_data_idx(x as int, y, z as int)] == column_cell(
                    col,
                    draws@,
                    y,
                ),
            forall|y: int|
                0 <= y <= 255 - k ==> #[trigger] blocks@[spec_chunk_data_idx(x as int, y, z as int)] == col[y],
        decreases 256 - k,
    {
        let block_y: u32 = 255 - k;
        let blocks_idx = chunk_data_idx(x, block_y, z);
        proof {
            lemma_column_index(x as int, block_y as int, z as int);
        }
        let ghost before = blocks@;
        let draw = draws[k as usize];
        assert(draw == draw_at(draws@, block_y as int));
        let current_block = blocks[blocks_idx];
        assert(current_block == col[block_y as int]);
        if block_y <= draw {
            blocks.set(blocks_idx, BLOCK_BEDROCK);
        } else {
            if current_block == BLOCK_AIR {
                topsoil_counter = -1;
            } else if current_block == BLOCK_STONE {
                if topsoil_counter == -1 {
                    // The topsoil is always three blocks deep under its top block.
                    topsoil_counter = 3;
                    if block_y >= SEA_LEVEL - 1 {
                        blocks.set(blocks_idx, BLOCK_GRASS);
                    } else {
                        blocks.set(blocks_idx, BLOCK_DIRT);
                    }
                } else if topsoil_counter > 0 {
                    topsoil_counter -= 1;
                    blocks.set(blocks_idx, BLOCK_DIRT);
                }
            }
        }
        proof {
            assert(blocks@[blocks_idx as int] == column_cell(col, draws@, block_y as int));
            assert(block_y == 0 || topsoil_counter == counter_above(col, draws@, block_y - 1));
            assert forall|y: int| 0 <= y < 256 && y != block_y implies #[trigger] blocks@[spec_chunk_data_idx(
                x as int,
                y,
                z as int,
            )] == before[spec_chunk_data_idx(x as int, y, z as int)] by {
                lemma_column_index(x as int, y, z as int);
            }
            assert forall|i: int|
                0 <= i < old_blocks.len() && (i % 256 != c || i >= 65536) implies #[trigger] blocks@[i]
                == old_blocks[i] by {
                assert(blocks@[i] == before[i]);
            }
        }
        k = k + 1;
    }
}

/// The seed of the generator of the column at world position (`gx`, `gz`).
pub open spec fn column_seed(world_seed: u32, gx: i32, gz: i32) -> Seq<u32> {
    seq![world_seed, gx as u32, gz as u32, BIOME_BLOCK_MUTATE_SEED]
}

/// `k` draws in `0..5`, the bounds of the draws made before the next one.
pub open spec fn column_history(k: int) -> Seq<(u32, u32)> {
    Seq::new(k as nat, |i: int| (0u32, 5u32))
}

/// The 256 numbers drawn in `0..5`, from the top of the column down, by the
/// generator started from `seed`.
pub open spec fn column_draws(seed: Seq<u32>) -> Seq<u32> {
    Seq::new(256, |k: int| xorshift_draw(seed, column_history(k), 0, 5))
}

/// Walks down the column at (`pos`) of a chunk with numbers drawn from a
/// generator seeded by the world seed and the column's world position
/// `glob_pos`, one number in `0..5` per block from the top down.
pub fn mutate_chunk_column(world_seed: u32, blocks: &mut Vec<u8>, glob_pos: [i32; 2], pos: [u32; 2])
    requires
        old(blocks)@.len() > spec_chunk_data_idx(pos[0] as int, 255, pos[1] as int),
    ensures
        draws_ok(column_draws(column_seed(world_seed, glob_pos[0], glob_pos[1]))),
        column_mutated(
            old(blocks)@,
            final(blocks)@,
            pos[0] as int,
            pos[1] as int,
            column_draws(column_seed(world_seed, glob_pos[0], glob_pos[1])),
        ),
        only_column_changed(old(blocks)@, final(blocks)@, column_base(pos[0] as int, pos[1] as int)),
{
    let seed = [world_seed, glob_pos[0] as u32, glob_pos[1] as u32, BIOME_BLOCK_MUTATE_SEED];
    let ghost expected = column_draws(column_seed(world_seed, glob_pos[0], glob_pos[1]));
    assert(seed@ =~= column_seed(world_seed, glob_pos[0], glob_pos[1]));
    let mut rng = xorshift_from_seed(seed);
    let mut draws: Vec<u32> = Vec::new();
    let mut k: u32 = 0;
    assert(rng.spec_history() =~= column_history(0));
    while k < 256
        invariant
            k <= 256,
            expected == column_draws(seed@),
            rng.spec_seed() == seed@,
            rng.spec_history() == column_history(k as int),
            draws@.len() == k,
            forall|j: int| 0 <= j < k ==> #[trigger] draws@[j] == expected[j] && draws@[j] < 5,
        decreases 256 - k,
    {
        let draw = xorshift_gen_range_u32(&mut rng, 0, 5);
        draws.push(draw);
        assert(rng.spec_history() =~= column_history(k + 1));
        k = k + 1;
    }
    assert(draws@ =~= expected);
    mutate_column_with_draws(blocks, pos[0], pos[1], &draws);
}

} // verus!

verus! {

/// The column at (`bx`, `bz`) of `new` is that of `old` walked down with the
/// draws of the column at world position (`16 * cx + bx`, `16 * cz + bz`),
/// which all lie in `0..5`.
pub open spec fn column_walked(world_seed: u32, cx: int, cz: int, old: Seq<u8>, new: Seq<u8>, bx: int, bz: int) -> bool {
    let draws = column_draws(column_seed(world_seed, (cx * 16 + bx) as i32, (cz * 16 + bz) as i32));
    &&& draws_ok(draws)
    &&& column_mutated(old, new, bx, bz, draws)
}

/// The position of the column with base `c` in the order `mutate_chunk`
/// walks columns: by `x`, then by `z`.
pub open spec fn column_order(c: int) -> int {
    (c % 16) * 16 + c / 16
}

/// Walks down each of the 256 columns of a chunk, as `mutate_chunk_column`
/// does, with each column's world position.
#[verifier::spinoff_prover]
pub fn mutate_chunk(world_seed: u32, blocks: &mut Vec<u8>, chunk_pos: [i32; 2])
    requires
        old(blocks)@.len() >= 65536,
        i32::MIN <= chunk_pos[0] * 16,
        chunk_pos[0] * 16 + 15 <= i32::MAX,
        i32::MIN <= chunk_pos[1] * 16,
        chunk_pos[1] * 16 + 15 <= i32::MAX,
    ensures
        final(blocks)@.len() == old(blocks)@.len(),
        forall|i: int| 65536 <= i < old(blocks)@.len() ==> #[trigger] final(blocks)@[i] == old(blocks)@[i],
        forall|bx: int, bz: int|
            0 <= bx < 16 && 0 <= bz < 16 ==> #[trigger] column_walked(
                world_seed,
                chunk_pos[0] as int,
                chunk_pos[1] as int,
                old(blocks)@,
                final(blocks)@,
                bx,
                bz,
            ),
{
    let ghost old_blocks = blocks@;
    let mut block_x: u32 = 0;
    while block_x < 16
        invariant
            old_blocks.len() >= 65536,
            i32::MIN <= chunk_pos[0] * 16,
            chunk_pos[0] * 16 + 15 <= i32::MAX,
            i32::MIN <= chunk_pos[1] * 16,
            chunk_pos[1] * 16 + 15 <= i32::MAX,
            block_x <= 16,
            blocks@.len() == old_blocks.len(),
            forall|i: int| 65536 <= i < old_blocks.len() ==> #[trigger] blocks@[i] == old_blocks[i],
            forall|i: int|
                0 <= i < 65536 && column_order(i % 256) >= block_x * 16 ==> #[trigger] blocks@[i] == old_blocks[i],
            forall|bx: int, bz: int|
                0 <= bx < 16 && 0 <= bz < 16 && bx * 16 + bz < block_x * 16 ==> #[trigger] column_walked(
                    world_seed,
                    chunk_pos[0] as int,
                    chunk_pos[1] as int,
                    old_blocks,
                    blocks@,
                    bx,
                    bz,
                ),
        decreases 16 - block_x,
    {
        let mut block_z: u32 = 0;
        while block_z < 16
            invariant
                old_blocks.len() >= 65536,
                i32::MIN <= chunk_pos[0] * 16,
                chunk_pos[0] * 16 + 15 <= i32::MAX,
                i32::MIN <= chunk_pos[1] * 16,
                chunk_pos[1] * 16 + 15 <= i32::MAX,
                block_x < 16,
                block_z <= 16,
                blocks@.len() == old_blocks.len(),
                forall|i: int| 65536 <= i < old_blocks.len() ==> #[trigger] blocks@[i] == old_blocks[i],
                forall|i: int|
                    0 <= i < 65536 && column_order(i % 256) >= block_x * 16 + block_z ==> #[trigger] blocks@[i]
                        == old_blocks[i],
                forall|bx: int, bz: int|
                    0 <= bx < 16 && 0 <= bz < 16 && bx * 16 + bz < block_x * 16 + block_z ==> #[trigger] column_walked(
                        world_seed,
                        chunk_pos[0] as int,
                        chunk_pos[1] as int,
                        old_blocks,
                        blocks@,
                        bx,
                        bz,
                    ),
            decreases 16 - block_z,
        {
            let ghost before = blocks@;
            let glob = [chunk_pos[0] * 16 + (block_x as i32), chunk_pos[1] * 16 + (block_z as i32)];
            proof {
                lemma_column_index(block_x as int, 255, block_z as int);
            }
            mutate_chunk_column(world_seed, blocks, glob, [block_x, block_z]);
            proof {
                let c = column_base(block_x as int, block_z as int);
                assert(c == block_x + 16 * block_z);
                assert(column_order(c) == block_x * 16 + block_z);
                assert forall|bx: int, bz: int|
                    0 <= bx < 16 && 0 <= bz < 16 && bx * 16 + bz < block_x * 16 + block_z + 1 implies #[trigger] column_walked(
                    world_seed,
                    chunk_pos[0] as int,
                    chunk_pos[1] as int,
                    old_blocks,
                    blocks@,
                    bx,
                    bz,
                ) by {
                    assert(column_base(bx, bz) == bx + 16 * bz);
                    assert(column_order(column_base(bx, bz)) == bx * 16 + bz);
                    let d = column_draws(
                        column_seed(world_seed, (chunk_pos[0] * 16 + bx) as i32, (chunk_pos[1] * 16 + bz) as i32),
                    );
                    if bx == block_x && bz == block_z {
                        assert forall|y: int| 0 <= y < 256 implies #[trigger] before[spec_chunk_data_idx(bx, y, bz)]
                            == old_blocks[spec_chunk_data_idx(bx, y, bz)] by {
                            lemma_column_index(bx, y, bz);
                        }
                        assert(column_of(before, bx, bz) =~= column_of(old_blocks, bx, bz));
                        assert(column_mutated(old_blocks, blocks@, bx, bz, d));
                    } else {
                        assert(column_walked(world_seed, chunk_pos[0] as int, chunk_pos[1] as int, old_blocks, before, bx, bz));
                        assert forall|y: int| 0 <= y < 256 implies #[trigger] blocks@[spec_chunk_data_idx(bx, y, bz)]
                            == before[spec_chunk_data_idx(bx, y, bz)] by {
                            lemma_column_index(bx, y, bz);
                        }
                        assert(column_mutated(old_blocks, blocks@, bx, bz, d));
                    }
                }
                assert forall|i: int|
                    0 <= i < 65536 && column_order(i % 256) >= block_x * 16 + block_z + 1 implies #[trigger] blocks@[i]
                    == old_blocks[i] by {
                    assert(i % 256 != c);
                    assert(blocks@[i] == before[i]);
                }
            }
            block_z = block_z + 1;
        }
        block_x = block_x + 1;
    }
}

} // verus!

verus! {

/// The bottom of every column becomes bedrock, whatever was drawn.
pub proof fn lemma_bottom_is_bedrock(col: Seq<u8>, draws: Seq<u32>)
    requires
        draws.len() == 256,
    ensures
        column_cell(col, draws, 0) == BLOCK_BEDROCK,
{
}

/// From height 5 up no block becomes bedrock: air stays air, blocks other
/// than stone keep their kind, and stone stays stone or turns to dirt or grass.
pub proof fn lemma_upper_column(col: Seq<u8>, draws: Seq<u32>, y: int)
    requires
        draws_ok(draws),
        5 <= y < 256,
    ensures
        col[y] == BLOCK_AIR ==> column_cell(col, draws, y) == BLOCK_AIR,
        col[y] != BLOCK_STONE ==> column_cell(col, draws, y) == col[y],
        col[y] == BLOCK_STONE ==> column_cell(col, draws, y) == BLOCK_STONE || column_cell(col, draws, y)
            == BLOCK_DIRT || column_cell(col, draws, y) == BLOCK_GRASS,
{
    assert(draw_at(draws, y) < 5);
}

/// The topmost stone of a run, under air or at the top of the column, turns
/// to grass at or above sea level minus one and to dirt below it.
pub proof fn lemma_top_stone_is_topsoil(col: Seq<u8>, draws: Seq<u32>, y: int)
    requires
        draws_ok(draws),
        5 <= y < 256,
        col[y] == BLOCK_STONE,
        y == 255 || col[y + 1] == BLOCK_AIR,
    ensures
        column_cell(col, draws, y) == (if y >= SEA_LEVEL - 1 { BLOCK_GRASS } else { BLOCK_DIRT }),
{
    assert(draw_at(draws, y) < 5);
    if y < 255 {
        assert(draw_at(draws, y + 1) < 5);
    }
}

} // verus!

verus! {

/// Every index of the first 65536 blocks of a chunk is that of one block of
/// one column.
proof fn lemma_index_in_column(i: int)
    requires
        0 <= i < 65536,
    ensures
        0 <= (i % 256) % 16 < 16,
        0 <= (i % 256) / 16 < 16,
        0 <= i / 256 < 256,
        column_base((i % 256) % 16, (i % 256) / 16) == i % 256,
        spec_chunk_data_idx((i % 256) % 16, i / 256, (i % 256) / 16) == i,
{
    let c = i % 256;
    let x = c % 16;
    let z = c / 16;
    let y = i / 256;
    vstd::arithmetic::div_mod::lemma_fundamental_div_mod(i, 256);
    vstd::arithmetic::div_mod::lemma_fundamental_div_mod(c, 16);
    assert(0 <= y < 256);
    assert(0 <= z < 16);
    assert(x % 16 == x);
    assert(z % 16 == z);
    assert(y % 256 == y);
}

/// Walking a column is determined by the blocks and the draws: two results
/// of walking the same column of the same blocks with the same draws, each
/// leaving every other block as it was, are equal.
pub proof fn lemma_column_walk_is_determined(
    old: Seq<u8>,
    new1: Seq<u8>,
    new2: Seq<u8>,
    x: int,
    z: int,
    draws: Seq<u32>,
)
    requires
        0 <= x < 16,
        0 <= z < 16,
        column_mutated(old, new1, x, z, draws),
        only_column_changed(old, new1, column_base(x, z)),
        column_mutated(old, new2, x, z, draws),
        only_column_changed(old, new2, column_base(x, z)),
    ensures
        new1 == new2,
{
    assert forall|i: int| 0 <= i < new1.len() implies new1[i] == new2[i] by {
        if i < 65536 && i % 256 == column_base(x, z) {
            lemma_index_in_column(i);
            assert(x % 16 == x && z % 16 == z);
            assert(column_base(x, z) == x + 16 * z);
            vstd::arithmetic::div_mod::lemma_fundamental_div_mod(i % 256, 16);
            assert((i % 256) % 16 == x && (i % 256) / 16 == z);
            assert(new1[spec_chunk_data_idx(x, i / 256, z)] == new2[spec_chunk_data_idx(x, i / 256, z)]);
        }
    }
    assert(new1 =~= new2);
}

/// A column's blocks after `mutate_chunk_column` depend only on the blocks
/// before, the world seed and the column's world and chunk positions.
pub proof fn lemma_column_depends_on_seed_and_position(
    world_seed: u32,
    glob_pos: [i32; 2],
    pos: [u32; 2],
    old: Seq<u8>,
    new1: Seq<u8>,
    new2: Seq<u8>,
)
    requires
        pos[0] < 16,
        pos[1] < 16,
        column_mutated(old, new1, pos[0] as int, pos[1] as int, column_draws(column_seed(world_seed, glob_pos[0], glob_pos[1]))),
        only_column_changed(old, new1, column_base(pos[0] as int, pos[1] as int)),
        column_mutated(old, new2, pos[0] as int, pos[1] as int, column_draws(column_seed(world_seed, glob_pos[0], glob_pos[1]))),
        only_column_changed(old, new2, column_base(pos[0] as int, pos[1] as int)),
    ensures
        new1 == new2,
{
    lemma_column_walk_is_determined(
        old,
        new1,
        new2,
        pos[0] as int,
        pos[1] as int,
        column_draws(column_seed(world_seed, glob_pos[0], glob_pos[1])),
    );
}

/// A chunk after `mutate_chunk` depends only on the blocks before, the world
/// seed and the chunk's position.
pub proof fn lemma_chunk_depends_on_seed_and_position(
    world_seed: u32,
    chunk_pos: [i32; 2],
    old: Seq<u8>,
    new1: Seq<u8>,
    new2: Seq<u8>,
)
    requires
        new1.len() == old.len(),
        new2.len() == old.len(),
        forall|i: int| 65536 <= i < old.len() ==> #[trigger] new1[i] == old[i],
        forall|i: int| 65536 <= i < old.len() ==> #[trigger] new2[i] == old[i],
        forall|bx: int, bz: int|
            0 <= bx < 16 && 0 <= bz < 16 ==> #[trigger] column_walked(
                world_seed,
                chunk_pos[0] as int,
                chunk_pos[1] as int,
                old,
                new1,
                bx,
                bz,
            ),
        forall|bx: int, bz: int|
            0 <= bx < 16 && 0 <= bz < 16 ==> #[trigger] column_walked(
                world_seed,
                chunk_pos[0] as int,
                chunk_pos[1] as int,
                old,
                new2,
                bx,
                bz,
            ),
    ensures
        new1 == new2,
{
    assert forall|i: int| 0 <= i < new1.len() implies new1[i] == new2[i] by {
        if i < 65536 {
            lemma_index_in_column(i);
            let bx = (i % 256) % 16;
            let bz = (i % 256) / 16;
            assert(column_walked(world_seed, chunk_pos[0] as int, chunk_pos[1] as int, old, new1, bx, bz));
            assert(column_walked(world_seed, chunk_pos[0] as int, chunk_pos[1] as int, old, new2, bx, bz));
            assert(new1[spec_chunk_data_idx(bx, i / 256, bz)] == new2[spec_chunk_data_idx(bx, i / 256, bz)]);
        }
    }
    assert(new1 =~= new2);
}

} // verus!

verus! {

/// In a column walked by `mutate_chunk`, the bottom block is bedrock, and
/// from height 5 up a block that changed was stone and is now grass or dirt.
pub proof fn lemma_chunk_walk_blocks(
    world_seed: u32,
    cx: int,
    cz: int,
    old: Seq<u8>,
    new: Seq<u8>,
    bx: int,
    bz: int,
    y: int,
)
    requires
        0 <= bx < 16,
        0 <= bz < 16,
        0 <= y < 256,
        column_walked(world_seed, cx, cz, old, new, bx, bz),
    ensures
        y == 0 ==> new[spec_chunk_data_idx(bx, y, bz)] == BLOCK_BEDROCK,
        y >= 5 && new[spec_chunk_data_idx(bx, y, bz)] != old[spec_chunk_data_idx(bx, y, bz)] ==> old[spec_chunk_data_idx(
            bx,
            y,
            bz,
        )] == BLOCK_STONE && (new[spec_chunk_data_idx(bx, y, bz)] == BLOCK_GRASS || new[spec_chunk_data_idx(bx, y, bz)]
            == BLOCK_DIRT),
{
    let draws = column_draws(column_seed(world_seed, (cx * 16 + bx) as i32, (cz * 16 + bz) as i32));
    let col = column_of(old, bx, bz);
    assert(new[spec_chunk_data_idx(bx, y, bz)] == column_cell(col, draws, y));
    assert(col[y] == old[spec_chunk_data_idx(bx, y, bz)]);
    lemma_bottom_is_bedrock(col, draws);
    if y >= 5 {
        lemma_upper_column(col, draws, y);
    }
}

} // verus!

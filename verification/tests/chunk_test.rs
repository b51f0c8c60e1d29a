use worldgen::gen::unit::GenUnit;
use worldgen::generators::vanilla::biome_block_mutate::{
    mutate_chunk, mutate_chunk_column, mutate_column_with_draws, BLOCK_AIR, BLOCK_BEDROCK, BLOCK_DIRT, BLOCK_GRASS,
    BLOCK_STONE,
};
use worldgen::generators::vanilla::biomes::make_biome_val;
use worldgen::generators::vanilla::caves::{
    block_is_carvable, carve_block, cave_rng_builder, clamp_carve_box, get_chunk_idx, scan_water, BLOCK_LAVA, BLOCK_WATER,
};
use worldgen::generators::vanilla::util::{chunk_data_idx, height_field_idx};
use worldgen::geom::{BlockPos, Pos2, Pos2u, Pos3, Size2, Size3};

#[test]
fn grid_construction_and_indexing() {
    let unit = GenUnit::new3(Size3::new(2, 3, 4), 7u8);
    assert_eq!(unit.len(), 24);
    assert!(unit.data.iter().all(|v| *v == 7));
    assert_eq!(unit.to_idx(1, 2, 3), 23);
    assert_eq!(unit.to_idx_vec3(Pos3::new(1, 0, 2)), 5);
    assert_eq!(unit.from_idx(23), Pos3::new(1, 2, 3));
    for idx in 0..24 {
        let p = unit.from_idx(idx);
        assert_eq!(unit.to_idx(p.x, p.y, p.z), idx);
    }
    let flat = GenUnit::new2(Size2::new(5, 6), 0u32);
    assert_eq!(flat.size, Size3::new(5, 1, 6));
    assert_eq!(flat.size2(), Size2::new(5, 6));
    assert_eq!(flat.to_idx_vec2(Pos2u::new(4, 5)), 29);
    let from_vec = GenUnit::new2_from_vec(Size2::new(2, 2), vec![1, 2, 3, 4]);
    assert_eq!(from_vec.data, vec![1, 2, 3, 4]);
    assert_eq!(from_vec.size, Size3::new(2, 1, 2));
    let from_vec3 = GenUnit::new3_from_vec(Size3::new(1, 2, 1), vec![8, 9]);
    assert_eq!(from_vec3.len(), 2);
}

#[test]
fn chunk_indices() {
    assert_eq!(chunk_data_idx(3, 2, 5), 595);
    assert_eq!(chunk_data_idx(17, 257, 33), 273);
    assert_eq!(height_field_idx(1, 2, 3), 66);
    assert_eq!(get_chunk_idx(1, 2, 3), 561);
    let grid = GenUnit::new3(Size3::new(16, 256, 16), 0u8);
    assert_eq!(grid.to_idx(3, 2, 5), chunk_data_idx(3, 2, 5));
}

#[test]
fn biome_values() {
    assert_eq!(make_biome_val(Pos2::new(0, 0), (4, 0)), 0);
    assert_eq!(make_biome_val(Pos2::new(0, 0), (3, 2)), 1);
}

fn column(blocks: &[u8], x: u32, z: u32) -> Vec<u8> {
    (0..256).map(|y| blocks[chunk_data_idx(x, y, z)]).collect()
}

#[test]
fn column_walk_with_draws() {
    let mut blocks = vec![BLOCK_STONE; 65536];
    for y in 70..256 {
        blocks[chunk_data_idx(0, y, 0)] = BLOCK_AIR;
    }
    let draws = vec![4u32; 256];
    mutate_column_with_draws(&mut blocks, 0, 0, &draws);
    let col = column(&blocks, 0, 0);
    for y in 0..5 {
        assert_eq!(col[y], BLOCK_BEDROCK);
    }
    for y in 5..66 {
        assert_eq!(col[y], BLOCK_STONE);
    }
    assert_eq!(&col[66..69], &[BLOCK_DIRT, BLOCK_DIRT, BLOCK_DIRT]);
    assert_eq!(col[69], BLOCK_GRASS);
    for y in 70..256 {
        assert_eq!(col[y], BLOCK_AIR);
    }
    // other columns are left alone
    assert!(column(&blocks, 1, 0).iter().all(|b| *b == BLOCK_STONE));
}

#[test]
fn column_walk_under_water_makes_dirt() {
    let mut blocks = vec![BLOCK_AIR; 65536];
    for y in 0..60 {
        blocks[chunk_data_idx(3, y, 4)] = BLOCK_STONE;
    }
    for y in 60..63 {
        blocks[chunk_data_idx(3, y, 4)] = BLOCK_WATER;
    }
    let draws = vec![0u32; 256];
    mutate_column_with_draws(&mut blocks, 3, 4, &draws);
    let col = column(&blocks, 3, 4);
    assert_eq!(col[0], BLOCK_BEDROCK);
    assert_eq!(col[1], BLOCK_STONE);
    assert_eq!(&col[55..63], &[BLOCK_STONE, BLOCK_DIRT, BLOCK_DIRT, BLOCK_DIRT, BLOCK_DIRT, 9, 9, 9]);
}

#[test]
fn column_walk_of_a_generator() {
    let mut blocks = vec![BLOCK_STONE; 65536];
    mutate_chunk_column(99, &mut blocks, [5, 6], [5, 6]);
    let col = column(&blocks, 5, 6);
    assert_eq!(col[0], BLOCK_BEDROCK);
    assert_eq!(col[255], BLOCK_GRASS);
    for y in 5..255 {
        assert_ne!(col[y], BLOCK_BEDROCK);
    }
}

#[test]
fn chunk_walk_bedrock_floor() {
    let mut blocks = vec![BLOCK_STONE; 65536];
    mutate_chunk(5, &mut blocks, [0, 0]);
    let mut bedrock_at_one = 0;
    for x in 0..16 {
        for z in 0..16 {
            let col = column(&blocks, x, z);
            assert_eq!(col[0], BLOCK_BEDROCK);
            assert_eq!(col[255], BLOCK_GRASS);
            for y in 5..255 {
                assert_ne!(col[y], BLOCK_BEDROCK);
            }
            if col[1] == BLOCK_BEDROCK {
                bedrock_at_one += 1;
            }
        }
    }
    // numbers drawn in 0..5 put bedrock at height one in most columns
    assert!(bedrock_at_one > 100);
}

#[test]
fn carvable_blocks() {
    assert!(!block_is_carvable(BLOCK_STONE, 9));
    assert!(!block_is_carvable(BLOCK_STONE, 8));
    assert!(block_is_carvable(BLOCK_STONE, BLOCK_AIR));
    assert!(block_is_carvable(3, 0));
    assert!(!block_is_carvable(3, 8));
    assert!(block_is_carvable(110, 0));
    assert!(block_is_carvable(179, 0));
    // air and bedrock are never carved
    assert!(!block_is_carvable(BLOCK_AIR, BLOCK_STONE));
    assert!(!block_is_carvable(7, BLOCK_AIR));
}

#[test]
fn carving_blocks() {
    let mut data = vec![BLOCK_STONE; 65536];
    // below height 10 carving leaves lava
    assert!(!carve_block(&mut data, 1, 5, 1, false));
    assert_eq!(data[get_chunk_idx(1, 5, 1)], BLOCK_LAVA);
    // under water nothing is carved
    data[get_chunk_idx(2, 21, 2)] = BLOCK_WATER;
    assert!(!carve_block(&mut data, 2, 20, 2, false));
    assert_eq!(data[get_chunk_idx(2, 20, 2)], BLOCK_STONE);
    // grass is carved to air and the dirt under it grows grass
    data[get_chunk_idx(3, 30, 3)] = BLOCK_GRASS;
    data[get_chunk_idx(3, 29, 3)] = BLOCK_DIRT;
    assert!(carve_block(&mut data, 3, 30, 3, false));
    assert_eq!(data[get_chunk_idx(3, 30, 3)], BLOCK_AIR);
    assert_eq!(data[get_chunk_idx(3, 29, 3)], BLOCK_GRASS);
    // without grass above, dirt stays dirt
    data[get_chunk_idx(4, 29, 4)] = BLOCK_DIRT;
    assert!(!carve_block(&mut data, 4, 30, 4, false));
    assert_eq!(data[get_chunk_idx(4, 30, 4)], BLOCK_AIR);
    assert_eq!(data[get_chunk_idx(4, 29, 4)], BLOCK_DIRT);
}

#[test]
fn scanning_for_water() {
    let mut data = vec![BLOCK_STONE; 65536];
    data[get_chunk_idx(3, 10, 3)] = BLOCK_WATER;
    let (start, end) = clamp_carve_box(BlockPos::new(-4, -3, -4), BlockPos::new(20, 300, 20));
    assert_eq!(start, BlockPos::new(0, 1, 0));
    assert_eq!(end, BlockPos::new(16, 248, 16));
    assert!(scan_water(&data, start, end));
    assert!(!scan_water(&data, BlockPos::new(4, 1, 0), end));
    assert!(!scan_water(&data, BlockPos::new(0, 11, 0), end));
    assert!(!scan_water(&data, BlockPos::new(0, 1, 0), BlockPos::new(3, 248, 16)));
}

fn bottom(col: &[u8]) -> Vec<bool> {
    col[0..5].iter().map(|b| *b == BLOCK_BEDROCK).collect()
}

#[test]
fn column_walk_follows_the_world_position() {
    let stone = vec![BLOCK_STONE; 65536];
    let mut a = stone.clone();
    mutate_chunk_column(5, &mut a, [-3, -1], [0, 0]);
    assert_eq!(bottom(&column(&a, 0, 0)), vec![true, true, false, true, false]);
    let mut b = stone.clone();
    mutate_chunk_column(5, &mut b, [-1, -3], [0, 0]);
    assert_eq!(bottom(&column(&b, 0, 0)), vec![true, false, false, false, false]);
    // the same seed and positions give the same blocks
    let mut c = stone.clone();
    mutate_chunk_column(5, &mut c, [-3, -1], [0, 0]);
    assert_eq!(a, c);
}

#[test]
fn chunk_walk_uses_each_column_world_position() {
    let stone = vec![BLOCK_STONE; 65536];
    let mut chunk = stone.clone();
    mutate_chunk(5, &mut chunk, [2, -1]);
    assert_eq!(bottom(&column(&chunk, 3, 4)), vec![true, true, false, true, true]);
    let mut single = stone.clone();
    mutate_chunk_column(5, &mut single, [2 * 16 + 3, -16 + 4], [3, 4]);
    assert_eq!(column(&chunk, 3, 4), column(&single, 3, 4));
    let mut again = stone.clone();
    mutate_chunk(5, &mut again, [2, -1]);
    assert_eq!(chunk, again);
    let mut origin = stone.clone();
    mutate_chunk(5, &mut origin, [0, 0]);
    let at_one = (0..16).flat_map(|x| (0..16).map(move |z| (x, z))).filter(|&(x, z)| origin[chunk_data_idx(x, 1, z)] == BLOCK_BEDROCK).count();
    assert_eq!(at_one, 212);
}

#[test]
fn cave_generator_seed_of_a_chunk() {
    assert_eq!(cave_rng_builder(12345, 3, -2).build_seed(), [3951101180, 1089914925, 3504019988, 203935347]);
}

use worldgen::generators::vanilla::biomes::land_mask;
use worldgen::geom::{Pos2, Size2};
use worldgen::layer::{
    GenIsland, GenLayer, GenReduceOcean, GenSimpleFn, GenSimpleFnMixer, GenSimpleFnTransformer, GenZoom, ZoomType,
};

fn bits(s: &str) -> Vec<bool> {
    s.chars().map(|c| c == '1').collect()
}

#[test]
fn island_window_values() {
    let island = GenIsland::new(1, 4);
    let out = island.gen(42, Pos2::new(-2, -3), Size2::new(4, 4));
    assert_eq!(out, bits("0110001000101010"));
    let out = island.gen(42, Pos2::new(0, 0), Size2::new(4, 3));
    assert_eq!(out, bits("101100000000"));
}

#[test]
fn island_origin_is_land_in_every_window_holding_it() {
    let island = GenIsland::new(1, 4);
    for seed in 0..20 {
        let out = island.gen(seed, Pos2::new(-2, -3), Size2::new(4, 4));
        assert!(out[2 + 3 * 4]);
        let out = island.gen(seed, Pos2::new(-1, -1), Size2::new(2, 2));
        assert!(out[3]);
        let out = island.gen(seed, Pos2::new(0, 0), Size2::new(3, 3));
        assert!(out[0]);
        let out = island.gen(seed, Pos2::new(-2, 0), Size2::new(4, 2));
        assert!(out[2]);
        let out = island.gen(seed, Pos2::new(0, -1), Size2::new(1, 2));
        assert!(out[1]);
    }
    // the draw at the origin for seed 1 is not a zero: the origin is forced
    let out = island.gen(1, Pos2::new(0, 0), Size2::new(1, 1));
    assert_eq!(out, vec![true]);
}

#[test]
fn island_empty_window() {
    let island = GenIsland::new(1, 4);
    assert_eq!(island.gen(3, Pos2::new(10, 10), Size2::new(0, 5)), Vec::<bool>::new());
}

#[test]
fn fuzzy_zoom_window_values() {
    let zoom = GenZoom::new(2000, ZoomType::FUZZY, GenIsland::new(1, 4));
    let out = zoom.gen(42, Pos2::new(-3, -2), Size2::new(5, 4));
    assert_eq!(out, bits("00010001110001011110"));
}

#[test]
fn zoom_keeps_source_at_even_positions() {
    let island = GenIsland::new(1, 4);
    let src = island.gen(42, Pos2::new(-2, -1), Size2::new(4, 4));
    let zoom = GenZoom::new(2000, ZoomType::FUZZY, island);
    let (px, py, w, h) = (-3i32, -2i32, 5u32, 4u32);
    let out = zoom.gen(42, Pos2::new(px, py), Size2::new(w, h));
    for row in 0..h as i32 {
        for col in 0..w as i32 {
            let (x, z) = (px + col, py + row);
            if x % 2 == 0 && z % 2 == 0 {
                let (sx, sz) = (x / 2 - (px >> 1), z / 2 - (py >> 1));
                assert_eq!(out[(col + row * w as i32) as usize], src[(sx + sz * 4) as usize]);
            }
        }
    }
}

#[test]
fn land_mask_window_values() {
    let mask = land_mask();
    let out = mask.gen(7, Pos2::new(0, 0), Size2::new(8, 8));
    assert_eq!(out, bits("1111111111111111111111110001111100001111000111110000111100001111"));
    let out = mask.gen(7, Pos2::new(-5, 3), Size2::new(6, 5));
    assert_eq!(out, bits("111111100011100111001111100001"));
}

#[test]
fn reduce_ocean_window_values_and_keeps_land() {
    let source = GenZoom::new(2001, ZoomType::MAJORITY, GenZoom::new(2000, ZoomType::FUZZY, GenIsland::new(1, 4)));
    let src = source.gen(7, Pos2::new(0, 0), Size2::new(7, 7));
    assert_eq!(src, bits("1111110011100001110000000000000000000110000011111"));
    let reduce = GenReduceOcean::new(2, 2, source);
    let out = reduce.gen(7, Pos2::new(1, 1), Size2::new(5, 5));
    assert_eq!(out, bits("1110011101000100000001100"));
    for y in 0..5 {
        for x in 0..5 {
            let center = src[(x + 1) + (y + 1) * 7];
            if center {
                assert!(out[x + y * 5]);
            }
        }
    }
}

#[test]
fn simple_fn_layers() {
    let base = GenSimpleFn::new(|p: Pos2| p.x * 10 + p.y);
    let out = base.gen(0, Pos2::new(2, 3), Size2::new(3, 2));
    assert_eq!(out, vec![23, 33, 43, 24, 34, 44]);
    let plus = GenSimpleFnTransformer::new(|p: Pos2, v: i32| v + p.x, base.clone());
    let out = plus.gen(0, Pos2::new(2, 3), Size2::new(3, 2));
    assert_eq!(out, vec![25, 36, 47, 26, 37, 48]);
    let mix = GenSimpleFnMixer::new(|_p: Pos2, a: i32, b: i32| a - b, plus, base);
    let out = mix.gen(0, Pos2::new(2, 3), Size2::new(3, 2));
    assert_eq!(out, vec![2, 3, 4, 2, 3, 4]);
}

#[test]
fn island_values_do_not_depend_on_the_window() {
    let island = GenIsland::new(1, 4);
    let a = island.gen(9, Pos2::new(3, 5), Size2::new(6, 4));
    let b = island.gen(9, Pos2::new(5, 6), Size2::new(7, 7));
    for z in 6..9 {
        for x in 5..9 {
            assert_eq!(a[((x - 3) + (z - 5) * 6) as usize], b[((x - 5) + (z - 6) * 7) as usize]);
        }
    }
    let a = island.gen(9, Pos2::new(-3, -2), Size2::new(6, 5));
    let b = island.gen(9, Pos2::new(-1, 0), Size2::new(3, 3));
    for z in 0..3 {
        for x in -1..2 {
            assert_eq!(a[((x + 3) + (z + 2) * 6) as usize], b[((x + 1) + z * 3) as usize]);
        }
    }
}

#[test]
fn majority_zoom_of_a_uniform_source_is_uniform() {
    let all_land = GenSimpleFn::new(|_p: Pos2| true);
    let zoom = GenZoom::new(5, ZoomType::MAJORITY, all_land);
    let out = zoom.gen(3, Pos2::new(-7, 4), Size2::new(9, 6));
    assert!(out.iter().all(|v| *v));
    let all_ocean = GenSimpleFn::new(|_p: Pos2| false);
    let fuzzy = GenZoom::new(5, ZoomType::FUZZY, all_ocean);
    let out = fuzzy.gen(3, Pos2::new(-7, 4), Size2::new(9, 6));
    assert!(out.iter().all(|v| !*v));
}

#[test]
fn fuzzy_zoom_depends_on_the_window_column() {
    let zoom = GenZoom::new(2000, ZoomType::FUZZY, GenIsland::new(1, 4));
    let a = zoom.gen(42, Pos2::new(0, 0), Size2::new(8, 8));
    let b = zoom.gen(42, Pos2::new(2, 0), Size2::new(6, 8));
    let differing = (0..8).flat_map(|r| (0..6).map(move |c| (r, c))).filter(|&(r, c)| a[r * 8 + c + 2] != b[r * 6 + c]).count();
    assert_eq!(differing, 13);
    let c = zoom.gen(42, Pos2::new(0, 2), Size2::new(8, 6));
    for r in 0..6 {
        for col in 0..8 {
            assert_eq!(a[(r + 2) * 8 + col], c[r * 8 + col]);
        }
    }
}

#[test]
fn reduce_ocean_values_do_not_depend_on_the_window() {
    let reduce = GenReduceOcean::new(2, 2, GenIsland::new(1, 9));
    let a = reduce.gen(11, Pos2::new(10, 10), Size2::new(5, 5));
    let b = reduce.gen(11, Pos2::new(12, 11), Size2::new(6, 6));
    for z in 11..15 {
        for x in 12..15 {
            assert_eq!(a[((x - 10) + (z - 10) * 5) as usize], b[((x - 12) + (z - 11) * 6) as usize]);
        }
    }
}

#[test]
fn land_mask_is_its_chain_of_layers() {
    let chain = GenZoom::new(
        2003,
        ZoomType::MAJORITY,
        GenZoom::new(
            2002,
            ZoomType::MAJORITY,
            GenReduceOcean::new(
                2,
                2,
                GenZoom::new(2001, ZoomType::MAJORITY, GenZoom::new(2000, ZoomType::FUZZY, GenIsland::new(1, 4))),
            ),
        ),
    );
    let mask = land_mask();
    for (seed, x, y) in [(7i64, 0i32, 0i32), (7, -5, 3), (-123, 40, -17)] {
        assert_eq!(mask.gen(seed, Pos2::new(x, y), Size2::new(9, 7)), chain.gen(seed, Pos2::new(x, y), Size2::new(9, 7)));
    }
}

use worldgen::layer::LayerLCG;
use worldgen::rnd::RngBuilder;
use rand::{Rng, SeedableRng, XorShiftRng};

#[test]
fn lcg_world_seed_from_base_and_world() {
    let lcg = LayerLCG::new(1, 2);
    assert_eq!(lcg.world_seed(), -6767306396296287533);
    assert_eq!(LayerLCG::new(0, 0).world_seed(), 0);
}

#[test]
fn lcg_seed_world_reseeds() {
    let mut lcg = LayerLCG::new(1, 99);
    lcg.seed_world(2);
    assert_eq!(lcg.world_seed(), LayerLCG::new(1, 2).world_seed());
}

#[test]
fn lcg_next_int_sequence() {
    let mut lcg = LayerLCG::new(1, 2);
    lcg.seed_pos(3, 4);
    let got: Vec<i32> = (0..5).map(|_| lcg.next_int(7)).collect();
    assert_eq!(got, vec![0, 5, 5, 2, 5]);
}

#[test]
fn lcg_next_int_with_negative_bound() {
    let mut lcg = LayerLCG::new(1, 2);
    lcg.seed_pos(3, 4);
    let got: Vec<i32> = (0..5).map(|_| lcg.next_int(-7)).collect();
    assert_eq!(got, vec![0, -9, 5, 2, -9]);
}

#[test]
fn lcg_next_int_stays_in_range() {
    let mut lcg = LayerLCG::new(-17, 123456789);
    for x in -20..20 {
        lcg.seed_pos(x, -x * 3);
        for max in 1..12 {
            let n = lcg.next_int(max);
            assert!(0 <= n && n < max);
        }
    }
}

#[test]
fn lcg_seed_pos_forgets_earlier_draws() {
    let mut a = LayerLCG::new(5, 6);
    let mut b = LayerLCG::new(5, 6);
    a.seed_pos(10, 11);
    a.next_int(3);
    a.next_int(9);
    a.seed_pos(1, 2);
    b.seed_pos(1, 2);
    assert_eq!(a.next_int(1000), b.next_int(1000));
}

#[test]
fn lcg_random_pickers_follow_next_int() {
    let mut a = LayerLCG::new(3, 4);
    a.seed_pos(7, -7);
    let mut b = a.clone();
    let picked = a.random_from_2(10, 20);
    let n = b.next_int(2);
    assert_eq!(picked, if n == 0 { 10 } else { 20 });
    let picked4 = a.random_from_4('a', 'b', 'c', 'd');
    let n4 = b.next_int(4);
    assert_eq!(picked4, ['a', 'b', 'c', 'd'][n4 as usize]);
}

#[test]
fn rng_builder_seeds() {
    assert_eq!(RngBuilder::init().build_seed(), [46589, 1468250172, 1751844538, 3827076482]);
    assert_eq!(RngBuilder::init().mix(5).build_seed(), [2036076178, 437918734, 2529295971, 3538203306]);
    let cave = RngBuilder::init().mix(12345).mix(87462348731267).mix(3).mix((-2i64) as u64);
    assert_eq!(cave.build_seed(), [3951101180, 1089914925, 3504019988, 203935347]);
}

#[test]
fn rng_builder_build_seeds_xorshift() {
    let mut built = RngBuilder::init().mix(5).build().into_rng();
    let mut direct: XorShiftRng = SeedableRng::from_seed([2036076178u32, 437918734, 2529295971, 3538203306]);
    for _ in 0..8 {
        assert_eq!(built.next_u32(), direct.next_u32());
    }
}

#[test]
fn lcg_world_seed_survives_calls() {
    let mut lcg = LayerLCG::new(1, 2);
    let world = lcg.world_seed();
    lcg.seed_pos(-5, 9);
    let _ = lcg.next_int(7);
    let _ = lcg.random_from_2(1u8, 2u8);
    let _ = lcg.random_from_4(1u8, 2u8, 3u8, 4u8);
    lcg.seed_pos(100, -100);
    let _ = lcg.next_int(3);
    assert_eq!(lcg.world_seed(), world);
    assert_eq!(world, -6767306396296287533);
}

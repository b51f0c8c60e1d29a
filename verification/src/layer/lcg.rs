use vstd::prelude::*;
use vstd::arithmetic::div_mod::{lemma_fundamental_div_mod, lemma_fundamental_div_mod_converse, lemma_mod_bound};

verus! {

/// Multiplier of the mixing step.
pub const LCG_MULT: i64 = 6364136223846793005;
/// Increment of the mixing step.
pub const LCG_ADD: i64 = 1442695040888963407;

/// One mixing step of the generator, in two's complement arithmetic.
pub open spec fn spec_twist(seed: i64) -> i64 {
    seed.wrapping_mul(seed.wrapping_mul(LCG_MULT).wrapping_add(LCG_ADD))
}

fn twist(seed: i64) -> (r: i64)
    ensures
        r == spec_twist(seed),
{
    seed.wrapping_mul(seed.wrapping_mul(LCG_MULT).wrapping_add(LCG_ADD))
}

/// The world seed that `seed_world` derives from a base seed and a world seed.
pub open spec fn spec_world_seed(base_seed: i64, world_seed: i64) -> i64 {
    let s1 = spec_twist(world_seed).wrapping_add(base_seed);
    let s2 = spec_twist(s1).wrapping_add(base_seed);
    spec_twist(s2).wrapping_add(base_seed)
}

/// The position seed that `seed_pos` derives from a world seed and a position.
pub open spec fn spec_pos_seed(world_seed: i64, x: i64, z: i64) -> i64 {
    let s1 = spec_twist(world_seed).wrapping_add(x);
    let s2 = spec_twist(s1).wrapping_add(z);
    let s3 = spec_twist(s2).wrapping_add(x);
    spec_twist(s3).wrapping_add(z)
}

/// Rust's remainder `a % d`: it takes the sign of `a`.
pub open spec fn spec_rem(a: int, d: int) -> int {
    let m = if d < 0 { -d } else { d };
    if a >= 0 {
        a % m
    } else {
        -((-a) % m)
    }
}

/// The number that `next_int(max)` hands out from the position seed
/// `pos_seed`: the remainder of its bits from 24 up by `max`, moved up by `max`
/// when it is negative.
pub open spec fn spec_next_value(pos_seed: i64, max: i32) -> i32 {
    let r = spec_rem((pos_seed >> 24i64) as int, max as int);
    (if r < 0 { r + max } else { r }) as i32
}

/// `next_int(max)` is defined at the position seed `pos_seed`: `max` is not
/// zero, and moving a negative remainder up by `max` does not overflow.
pub open spec fn next_int_ok(pos_seed: i64, max: i32) -> bool {
    let r = spec_rem((pos_seed >> 24i64) as int, max as int);
    &&& max != 0
    &&& r < 0 ==> r + max >= i32::MIN
}

/// The position seed after one call of `next_int`.
pub open spec fn spec_next_pos(pos_seed: i64, world_seed: i64) -> i64 {
    spec_twist(pos_seed).wrapping_add(world_seed)
}

/// A call on a `LayerLCG` that keeps its seeding: a position seeding, a
/// draw (`next_int`, `random_from_2`, `random_from_4`) or a read of the world seed.
pub enum LcgCall {
    SeedPos(i64, i64),
    NextInt,
    RandomFrom2,
    RandomFrom4,
    WorldSeed,
}

/// The (base, world, position) seeds after one call.
pub open spec fn lcg_step(state: (i64, i64, i64), call: LcgCall) -> (i64, i64, i64) {
    match call {
        LcgCall::SeedPos(x, z) => (state.0, state.1, spec_pos_seed(state.1, x, z)),
        LcgCall::NextInt => (state.0, state.1, spec_next_pos(state.2, state.1)),
        LcgCall::RandomFrom2 => (state.0, state.1, spec_next_pos(state.2, state.1)),
        LcgCall::RandomFrom4 => (state.0, state.1, spec_next_pos(state.2, state.1)),
        LcgCall::WorldSeed => state,
    }
}

/// The (base, world, position) seeds after the calls `calls`, in order.
pub open spec fn lcg_run(state: (i64, i64, i64), calls: Seq<LcgCall>) -> (i64, i64, i64)
    decreases calls.len(),
{
    if calls.len() == 0 {
        state
    } else {
        lcg_run(lcg_step(state, calls[0]), calls.drop_first())
    }
}

/// A generator whose numbers depend only on a base seed, a world seed, the
/// position it was last seeded with, and how many numbers it has handed out
/// since.
#[derive(Clone)]
pub struct LayerLCG {
    base_seed: i64,
    world_seed: i64,
    pos_seed: i64,
}

impl LayerLCG {
    pub closed spec fn base(&self) -> i64 {
        self.base_seed
    }

    pub closed spec fn world(&self) -> i64 {
        self.world_seed
    }

    pub closed spec fn pos(&self) -> i64 {
        self.pos_seed
    }

    /// The base, world and position seeds.
    pub open spec fn seeds(&self) -> (i64, i64, i64) {
        (self.base(), self.world(), self.pos())
    }

    pub fn new(base_seed: i64, world_seed: i64) -> (lcg: LayerLCG)
        ensures
            lcg.base() == base_seed,
            lcg.world() == spec_world_seed(base_seed, world_seed),
            lcg.pos() == 0,
    {
        let mut lcg = LayerLCG { base_seed: base_seed, world_seed: base_seed, pos_seed: 0 };
        lcg.seed_world(world_seed);
        lcg
    }

    /// Seed the LCG from the base seed and the world seed
    pub fn seed_world(&mut self, world_seed: i64)
        ensures
            final(self).base() == old(self).base(),
            final(self).world() == spec_world_seed(old(self).base(), world_seed),
            final(self).pos() == old(self).pos(),
    {
        self.world_seed = twist(world_seed);
        self.world_seed = self.world_seed.wrapping_add(self.base_seed);
        self.world_seed = twist(self.world_seed);
        self.world_seed = self.world_seed.wrapping_add(self.base_seed);
        self.world_seed = twist(self.world_seed);
        self.world_seed = self.world_seed.wrapping_add(self.base_seed);
    }

    pub fn world_seed(&self) -> (r: i64)
        ensures
            r == self.world(),
            lcg_step(self.seeds(), LcgCall::WorldSeed) == self.seeds(),
    {
        self.world_seed
    }

    /// Seed the LCG from the current world seed and the position
    pub fn seed_pos(&mut self, x: i64, z: i64)
        ensures
            final(self).base() == old(self).base(),
            final(self).world() == old(self).world(),
            final(self).pos() == spec_pos_seed(old(self).world(), x, z),
            final(self).seeds() == lcg_step(old(self).seeds(), LcgCall::SeedPos(x, z)),
    {
        self.pos_seed = twist(self.world_seed);
        self.pos_seed = self.pos_seed.wrapping_add(x);
        self.pos_seed = twist(self.pos_seed);
        self.pos_seed = self.pos_seed.wrapping_add(z);
        self.pos_seed = twist(self.pos_seed);
        self.pos_seed = self.pos_seed.wrapping_add(x);
        self.pos_seed = twist(self.pos_seed);
        self.pos_seed = self.pos_seed.wrapping_add(z);
    }

    /// Next random number n from 0<=n<max
    pub fn next_int(&mut self, max: i32) -> (n: i32)
        requires
            next_int_ok(old(self).pos(), max),
        ensures
            n == spec_next_value(old(self).pos(), max),
            max > 0 ==> 0 <= n < max,
            max > 0 ==> n == ((old(self).pos() >> 24i64) as int) % (max as int),
            final(self).base() == old(self).base(),
            final(self).world() == old(self).world(),
            final(self).pos() == spec_next_pos(old(self).pos(), old(self).world()),
            final(self).seeds() == lcg_step(old(self).seeds(), LcgCall::NextInt),
    {
        let shifted: i64 = self.pos_seed >> 24i64;
        proof {
            lemma_shift_24_bounds(self.pos_seed);
        }
        // `max` is not zero and `shifted` lies far above `i64::MIN`: the
        // remainder always exists.
        let rem: i64 = match shifted.checked_rem(max as i64) {
            Some(r) => r,
            None => 0,
        };
        assert(rem == spec_rem(shifted as int, max as int));
        proof {
            if max > 0 {
                if shifted < 0 {
                    lemma_truncated_rem_to_euclid(shifted as int, max as int);
                }
                lemma_mod_bound(shifted as int, max as int);
                lemma_mod_bound(-shifted as int, max as int);
            } else {
                lemma_mod_bound(shifted as int, -max as int);
                lemma_mod_bound(-shifted as int, -max as int);
            }
        }
        let mut number: i32 = rem as i32;
        if number < 0 {
            number += max;
        }
        self.pos_seed = twist(self.pos_seed);
        self.pos_seed = self.pos_seed.wrapping_add(self.world_seed);
        number
    }

    /// Picks one of two values, each with the chance the generator gives it.
    pub fn random_from_2<T>(&mut self, i1: T, i2: T) -> (r: T)
        ensures
            r == (if spec_next_value(old(self).pos(), 2) == 0 { i1 } else { i2 }),
            final(self).base() == old(self).base(),
            final(self).world() == old(self).world(),
            final(self).pos() == spec_next_pos(old(self).pos(), old(self).world()),
            final(self).seeds() == lcg_step(old(self).seeds(), LcgCall::RandomFrom2),
    {
        let n = self.next_int(2);
        if n == 0 {
            i1
        } else {
            i2
        }
    }

    /// Picks one of four values, each with the chance the generator gives it.
    pub fn random_from_4<T>(&mut self, i1: T, i2: T, i3: T, i4: T) -> (r: T)
        ensures
            r == spec_pick4(spec_next_value(old(self).pos(), 4), i1, i2, i3, i4),
            final(self).base() == old(self).base(),
            final(self).world() == old(self).world(),
            final(self).pos() == spec_next_pos(old(self).pos(), old(self).world()),
            final(self).seeds() == lcg_step(old(self).seeds(), LcgCall::RandomFrom4),
    {
        let n = self.next_int(4);
        if n == 0 {
            i1
        } else if n == 1 {
            i2
        } else if n == 2 {
            i3
        } else {
            i4
        }
    }
}

/// The value among four that the number `n` (in `0..4`) selects.
pub open spec fn spec_pick4<T>(n: i32, i1: T, i2: T, i3: T, i4: T) -> T {
    if n == 0 {
        i1
    } else if n == 1 {
        i2
    } else if n == 2 {
        i3
    } else {
        i4
    }
}

/// Bits 24 and up of an `i64` lie within 40 bits.
proof fn lemma_shift_24_bounds(x: i64)
    ensures
        -0x80_0000_0000 <= (x >> 24i64) < 0x80_0000_0000,
{
    assert(-0x80_0000_0000 <= (x >> 24i64) < 0x80_0000_0000) by (bit_vector);
}

/// Rust's remainder on a negative dividend, moved into `[0, d)` by adding `d`
/// when it is negative, is the Euclidean remainder.
proof fn lemma_truncated_rem_to_euclid(a: int, d: int)
    requires
        d > 0,
        a < 0,
    ensures
        (-a) % d == 0 ==> a % d == 0,
        (-a) % d != 0 ==> a % d == d - (-a) % d,
{
    let q = (-a) / d;
    let t = (-a) % d;
    lemma_fundamental_div_mod(-a, d);
    lemma_mod_bound(-a, d);
    assert(-a == d * q + t);
    if t == 0 {
        assert(a == (-q) * d + 0) by (nonlinear_arith)
            requires
                -a == d * q + t,
                t == 0,
        ;
        lemma_fundamental_div_mod_converse(a, d, -q, 0);
    } else {
        assert(a == (-q - 1) * d + (d - t)) by (nonlinear_arith)
            requires
                -a == d * q + t,
        ;
        lemma_fundamental_div_mod_converse(a, d, -q - 1, d - t);
    }
}

} // verus!

verus! {

/// A generator keeps its base seed and its world seed through any sequence
/// of position seedings, draws and reads of the world seed; so after
/// `LayerLCG::new(b, w)` or `seed_world(w)` its world seed stays
/// `spec_world_seed(b, w)` until it is seeded again.
pub proof fn lemma_world_seed_survives(state: (i64, i64, i64), calls: Seq<LcgCall>)
    ensures
        lcg_run(state, calls).0 == state.0,
        lcg_run(state, calls).1 == state.1,
    decreases calls.len(),
{
    if calls.len() > 0 {
        lemma_world_seed_survives(lcg_step(state, calls[0]), calls.drop_first());
    }
}

} // verus!

verus! {

/// For a positive bound, the number `next_int(max)` hands out is the bits of
/// the position seed from 24 up, taken modulo `max` (into `0..max`).
pub proof fn lemma_next_value_positive(pos_seed: i64, max: i32)
    requires
        max > 0,
    ensures
        spec_next_value(pos_seed, max) as int == ((pos_seed >> 24i64) as int) % (max as int),
        0 <= spec_next_value(pos_seed, max) < max,
{
    let a = (pos_seed >> 24i64) as int;
    let m = max as int;
    lemma_shift_24_bounds(pos_seed);
    lemma_mod_bound(a, m);
    if a < 0 {
        lemma_truncated_rem_to_euclid(a, m);
        lemma_mod_bound(-a, m);
    }
}

} // verus!

use rand::{Rng, SeedableRng, XorShiftRng};
use vstd::prelude::*;

verus! {

/// Multiplier of the mixing step.
pub const LCG_MULT: u64 = 6364136223846793005;
/// Increment of the mixing step.
pub const LCG_ADD: u64 = 1442695040888963407;
/// The state a builder starts from.
pub const INIT_VAL: u64 = 781637684348;

#[verifier::external_type_specification]
#[verifier::external_body]
pub struct ExXorShiftRng(rand::XorShiftRng);

/// A `rand::XorShiftRng` together with the seed it was started from and the
/// `(low, high)` of every `gen_range` call made on it since, in order. Only
/// the two functions below touch the generator, and each keeps the record.
pub struct SeededXorShift {
    rng: XorShiftRng,
    seed: Ghost<Seq<u32>>,
    history: Ghost<Seq<(u32, u32)>>,
}

impl SeededXorShift {
    /// The four words the generator was started from.
    pub closed spec fn spec_seed(&self) -> Seq<u32> {
        self.seed@
    }

    /// The bounds of the draws made so far, oldest first.
    pub closed spec fn spec_history(&self) -> Seq<(u32, u32)> {
        self.history@
    }

    /// Hands the generator over, for draws this library does not make.
    pub fn into_rng(self) -> XorShiftRng {
        self.rng
    }
}

/// The number that `gen_range(low, high)` returns on a `rand::XorShiftRng`
/// started from `seed`, after the `gen_range` calls listed in `history`.
pub uninterp spec fn xorshift_draw(seed: Seq<u32>, history: Seq<(u32, u32)>, low: u32, high: u32) -> u32;

/// Calls `rand::SeedableRng::from_seed` for `rand::XorShiftRng`, which starts
/// the generator from the four words of `seed` and panics when all four are
/// zero. The generator comes back with `seed` and no draws on record.
#[verifier::external_body]
pub(crate) fn xorshift_from_seed(seed: [u32; 4]) -> (r: SeededXorShift)
    requires
        !(seed[0] == 0 && seed[1] == 0 && seed[2] == 0 && seed[3] == 0),
    ensures
        r.spec_seed() == seed@,
        r.spec_history() == Seq::<(u32, u32)>::empty(),
{
    SeededXorShift { rng: SeedableRng::from_seed(seed), seed: Ghost(seed@), history: Ghost(Seq::empty()) }
}

/// Calls `rand::Rng::gen_range` on a `rand::XorShiftRng` for `u32`: it panics
/// unless `low < high` and returns a number in `[low, high)`. The generator is
/// deterministic, so the number is a function of the seed and of the calls
/// made before (`xorshift_draw`); this call is added to the record.
#[verifier::external_body]
pub(crate) fn xorshift_gen_range_u32(rng: &mut SeededXorShift, low: u32, high: u32) -> (r: u32)
    requires
        low < high,
    ensures
        r == xorshift_draw(old(rng).spec_seed(), old(rng).spec_history(), low, high),
        low <= r < high,
        final(rng).spec_seed() == old(rng).spec_seed(),
        final(rng).spec_history() == old(rng).spec_history().push((low, high)),
{
    let r = rng.rng.gen_range(low, high);
    rng.history = Ghost(rng.history@.push((low, high)));
    r
}

/// One mixing step of the builder, modulo 2^64.
pub open spec fn spec_twist(seed: u64) -> u64 {
    seed.wrapping_mul(seed.wrapping_mul(LCG_MULT).wrapping_add(LCG_ADD))
}

fn twist(seed: u64) -> (r: u64)
    ensures
        r == spec_twist(seed),
{
    seed.wrapping_mul(seed.wrapping_mul(LCG_MULT).wrapping_add(LCG_ADD))
}

/// The state after mixing `mix` into `state`.
pub open spec fn spec_mix(state: u64, mix: u64) -> u64 {
    spec_twist(spec_twist(state).wrapping_add(mix)).wrapping_add(mix)
}

/// The word a state hands out: its bits 24 to 55.
pub open spec fn spec_word(state: u64) -> u32 {
    (state >> 24u64) as u32
}

/// The state after handing out a word.
pub open spec fn spec_advance(state: u64) -> u64 {
    spec_twist(spec_twist(state))
}

/// The four words a generator built from `state` is seeded with.
pub open spec fn spec_build_seed(state: u64) -> [u32; 4] {
    let s1 = spec_advance(state);
    let s2 = spec_advance(s1);
    let s3 = spec_advance(s2);
    [spec_word(state), spec_word(s1), spec_word(s2), spec_word(s3)]
}

/// All four words of a seed are zero.
pub open spec fn seed_all_zero(seed: [u32; 4]) -> bool {
    seed[0] == 0 && seed[1] == 0 && seed[2] == 0 && seed[3] == 0
}

/// Builds the seed of a random number generator by mixing numbers, in order,
/// into a 64 bit state.
pub struct RngBuilder {
    state: u64,
}

impl RngBuilder {
    pub closed spec fn spec_state(&self) -> u64 {
        self.state
    }

    pub fn init() -> (r: RngBuilder)
        ensures
            r.spec_state() == INIT_VAL,
    {
        RngBuilder { state: INIT_VAL }
    }

    pub fn mix(self, mix: u64) -> (r: RngBuilder)
        ensures
            r.spec_state() == spec_mix(self.spec_state(), mix),
    {
        let mut this = self;
        let mut state = this.state;
        state = twist(state);
        state = state.wrapping_add(mix);
        state = twist(state);
        state = state.wrapping_add(mix);
        this.state = state;
        this
    }

    fn next_u32(&mut self) -> (num: u32)
        ensures
            num == spec_word(old(self).spec_state()),
            final(self).spec_state() == spec_advance(old(self).spec_state()),
    {
        let num = (self.state >> 24u64) as u32;
        self.state = twist(self.state);
        self.state = twist(self.state);
        num
    }

    /// The four words that `build` seeds its generator with.
    pub fn build_seed(self) -> (seed: [u32; 4])
        ensures
            seed == spec_build_seed(self.spec_state()),
    {
        let mut this = self;
        let s1 = this.next_u32();
        let s2 = this.next_u32();
        let s3 = this.next_u32();
        let s4 = this.next_u32();
        [s1, s2, s3, s4]
    }

    /// A generator seeded with the words of `build_seed`, with no draws made.
    pub fn build(self) -> (r: SeededXorShift)
        requires
            !seed_all_zero(spec_build_seed(self.spec_state())),
        ensures
            r.spec_seed() == spec_build_seed(self.spec_state())@,
            r.spec_history() == Seq::<(u32, u32)>::empty(),
    {
        let seed = self.build_seed();
        xorshift_from_seed(seed)
    }
}

} // verus!

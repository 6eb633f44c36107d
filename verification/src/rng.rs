use rand::Rng;
use rand::SeedableRng;
use rand_xoshiro::Xoshiro256StarStar;
use vstd::prelude::*;

verus! {

/// The Xoshiro256** generator of `rand_xoshiro`, carried through opaquely.
#[verifier::external_type_specification]
#[verifier::external_body]
pub struct ExXoshiro256StarStar(rand_xoshiro::Xoshiro256StarStar);

/// The value that `Rng::gen_range(0..=hi)` (at type `u64`) returns on a
/// `Xoshiro256StarStar` made by `SeedableRng::seed_from_u64(seed)`, after
/// `gen_range(0..=h)` has already been called on it once for each `h` of
/// `earlier`, in that order.  The generator is deterministic, so this is a
/// function of these values alone.
pub uninterp spec fn xoshiro_gen_range(seed: u64, earlier: Seq<u64>, hi: u64) -> u64;

/// A seeded Xoshiro256** generator together with the seed it was made from
/// and the bounds of the draws taken from it so far.
pub(crate) struct SeededRng {
    rng: Xoshiro256StarStar,
    seed: Ghost<u64>,
    drawn: Ghost<Seq<u64>>,
}

impl SeededRng {
    /// The seed this generator was made from.
    pub(crate) closed spec fn seed(&self) -> u64 {
        self.seed@
    }

    /// The upper bounds of the draws taken from this generator, in order.
    pub(crate) closed spec fn drawn(&self) -> Seq<u64> {
        self.drawn@
    }

    /// Calls `Xoshiro256StarStar::seed_from_u64(seed)` (rand_core's
    /// `SeedableRng`).  Claimed: the generator is fresh, made from `seed`,
    /// with no draw taken yet.
    #[verifier::external_body]
    pub(crate) fn seed_from_u64(seed: u64) -> (r: SeededRng)
        ensures
            r.seed() == seed,
            r.drawn() == Seq::<u64>::empty(),
    {
        SeededRng {
            rng: Xoshiro256StarStar::seed_from_u64(seed),
            seed: Ghost(seed),
            drawn: Ghost(Seq::empty()),
        }
    }

    /// Calls `rand::Rng::gen_range(0..=hi)` at type `u64`.  Claimed, as the
    /// documentation of `gen_range` states: the value lies in `0..=hi` (the
    /// range is never empty, so the call does not panic).  Claimed too: the
    /// value is `xoshiro_gen_range` of the seed, the earlier draws and `hi`,
    /// and the draw is recorded.
    #[verifier::external_body]
    pub(crate) fn gen_range_inclusive(&mut self, hi: u64) -> (j: u64)
        ensures
            j <= hi,
            j == xoshiro_gen_range(old(self).seed(), old(self).drawn(), hi),
            final(self).seed() == old(self).seed(),
            final(self).drawn() == old(self).drawn().push(hi),
    {
        self.rng.gen_range(0..=hi)
    }
}

} // verus!

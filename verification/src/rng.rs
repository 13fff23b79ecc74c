//! The seeded random stream behind the galaxy generator.
//!
//! The generator's reproducibility rests on two facts about the outside
//! crates: `rand_seeder::Seeder` turns a string into a generator state by
//! hashing the string alone (SipHash), and `rand_pcg::Pcg64` is a pure
//! step function of its state. Together, the `i`-th value drawn from a
//! generator seeded with string `s` is a function of `(s, i)` and nothing
//! else; `seed_draw` names that function, and the two trusted wrappers
//! below say no more than that.

use vstd::prelude::*;

use rand::Rng;
use rand_pcg::Pcg64;
use rand_seeder::Seeder;

verus! {

/// A pseudo-random generator seeded from a string. The inner state is
/// opaque to the verifier; `rng_seed` and `rng_pos` name what it holds:
/// the seed string it was built from and how many values were drawn.
#[verifier::external_body]
pub struct StarRng {
    inner: Pcg64,
}

/// The seed string a generator was built from.
pub uninterp spec fn rng_seed(r: StarRng) -> Seq<char>;

/// How many values have been drawn from a generator.
pub uninterp spec fn rng_pos(r: StarRng) -> nat;

/// The `i`-th value of the stream that seed `s` determines.
pub uninterp spec fn seed_draw(s: Seq<char>, i: nat) -> u64;

/// Relies on `rand_seeder::Seeder::from` and `Seeder::into_rng::<Pcg64>`:
/// both are deterministic, so the generator state is a pure function of
/// the seed string.
#[verifier::external_body]
pub fn rng_from_seed(seed: &str) -> (r: StarRng)
    ensures
        rng_seed(r) == seed@,
        rng_pos(r) == 0,
{
    StarRng { inner: Seeder::from(seed).into_rng() }
}

/// Relies on `rand_core::Rng::next_u64` for `Pcg64`: stepping the
/// generator is deterministic, so the value drawn at position `i` of the
/// stream seeded by `s` is exactly `seed_draw(s, i)`.
#[verifier::external_body]
pub fn rng_next(r: &mut StarRng) -> (d: u64)
    ensures
        rng_seed(*final(r)) == rng_seed(*old(r)),
        rng_pos(*final(r)) == rng_pos(*old(r)) + 1,
        d == seed_draw(rng_seed(*old(r)), rng_pos(*old(r))),
{
    r.inner.next_u64()
}

} // verus!

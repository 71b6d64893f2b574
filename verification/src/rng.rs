use vstd::prelude::*;

verus! {

/// The standard pseudo-random generator of the `rand` crate.  Its state is
/// opaque to the library: nothing is assumed about the values it yields, so
/// everything proved downstream holds whatever the generator returns.
#[verifier::external_type_specification]
#[verifier::external_body]
pub struct ExStdRng(rand::rngs::StdRng);

/// Relies on rand's `SeedableRng::seed_from_u64` for `StdRng`: constructs a
/// generator from a 64-bit seed.  The generator state is opaque, so nothing
/// is stated about the result.
#[verifier::external_body]
pub(crate) fn rng_from_u64(seed: u64) -> rand::rngs::StdRng {
    <rand::rngs::StdRng as rand::SeedableRng>::seed_from_u64(seed)
}

/// Relies on rand's `SeedableRng::from_seed` for `StdRng`: constructs a
/// generator from a full 32-byte seed.  The generator state is opaque, so
/// nothing is stated about the result.
#[verifier::external_body]
pub(crate) fn rng_from_seed(seed: [u8; 32]) -> rand::rngs::StdRng {
    <rand::rngs::StdRng as rand::SeedableRng>::from_seed(seed)
}

/// Relies on rand's `Rng::gen_ratio`: returns true with probability
/// `num / den`; its documentation guarantees the result is true when
/// `num == den` and false when `num == 0`, and that it panics only when
/// `den == 0` or `num > den`, which the precondition excludes.
#[verifier::external_body]
pub(crate) fn gen_ratio(rng: &mut rand::rngs::StdRng, num: u32, den: u32) -> (b: bool)
    requires
        0 < den,
        num <= den,
    ensures
        num == den ==> b,
        num == 0 ==> !b,
{
    rand::Rng::gen_ratio(rng, num, den)
}

/// Relies on rand's `Rng::gen_range`: returns a uniformly sampled value of
/// the range `0..n`; its documentation guarantees the result lies in the
/// range, and that it panics only on an empty range, which the precondition
/// excludes.
#[verifier::external_body]
pub(crate) fn gen_index(rng: &mut rand::rngs::StdRng, n: u32) -> (i: u32)
    requires
        0 < n,
    ensures
        i < n,
{
    rand::Rng::gen_range(rng, 0..n)
}

} // verus!

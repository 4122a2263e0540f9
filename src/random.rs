//! The pseudo-random source the simulation draws from.
use rand::rngs::StdRng;
use rand::Rng;
use rand::SeedableRng;
use vstd::prelude::*;

verus! {

#[verifier::external_type_specification]
#[verifier::external_body]
pub struct ExStdRng(StdRng);

/// Relies on rand_core's `SeedableRng::seed_from_u64`: a generator whose
/// stream is fixed by the seed. Nothing is claimed about the stream.
#[verifier::external_body]
pub(crate) fn seeded_rng(seed: u64) -> StdRng {
    StdRng::seed_from_u64(seed)
}

/// Relies on rand's `Rng::gen_range` over `lo..=hi`: it panics only on an
/// empty range and otherwise returns a value inside the range.
#[verifier::external_body]
pub(crate) fn gen_between(rng: &mut StdRng, lo: i64, hi: i64) -> (r: i64)
    requires
        lo <= hi,
    ensures
        lo <= r <= hi,
{
    rng.gen_range(lo..=hi)
}

/// An index drawn from `0..n`.
pub(crate) fn gen_index(rng: &mut StdRng, n: usize) -> (r: usize)
    requires
        0 < n <= i64::MAX,
    ensures
        r < n,
{
    gen_between(rng, 0, (n - 1) as i64) as usize
}

} // verus!

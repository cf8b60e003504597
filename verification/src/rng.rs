//! The one place where the library draws randomness from the outside.
use rand::Rng;
use vstd::prelude::*;

verus! {

/// Relies on rand::Rng::gen_range over the half-open range 0..n, drawn from
/// rand::thread_rng(): it panics on an empty range and otherwise returns a
/// value of that range. Only the bound is assumed; the distribution is not.
#[verifier::external_body]
pub(crate) fn random_index(n: usize) -> (r: usize)
    requires
        n > 0,
    ensures
        r < n,
{
    rand::thread_rng().gen_range(0..n)
}

} // verus!

//! Trusted access to the thread-local random number generator.
//!
//! Nothing can be promised about the distribution of these values, so the
//! contracts state only range facts that the generator's documentation
//! plainly gives; all logic consuming them is verified for every outcome.

use vstd::prelude::*;
use rand::Rng;

verus! {

/// Relies on rand::thread_rng and Rng::gen_range over `0..n`: a value
/// strictly below `n`; `gen_range` panics on an empty range, so `n` must
/// be positive.
#[verifier::external_body]
pub(crate) fn random_below(n: u64) -> (r: u64)
    requires
        n > 0,
    ensures
        r < n,
{
    rand::thread_rng().gen_range(0..n)
}

/// Relies on rand::thread_rng and Rng::gen::<u16>: an arbitrary 16-bit
/// value, read by callers as a fixed-point fraction in `[0, 1)`.
#[verifier::external_body]
pub(crate) fn random_fraction() -> (r: u16) {
    rand::thread_rng().gen::<u16>()
}

/// Relies on rand::thread_rng and Rng::gen::<bool>: an arbitrary coin flip.
#[verifier::external_body]
pub(crate) fn random_bool() -> (r: bool) {
    rand::thread_rng().gen::<bool>()
}

/// Relies on rand::thread_rng and Rng::gen::<i8>: an arbitrary signed byte.
#[verifier::external_body]
pub(crate) fn random_i8() -> (r: i8) {
    rand::thread_rng().gen::<i8>()
}

} // verus!

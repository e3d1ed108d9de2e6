//! The source of randomness: draws from the thread-local generator.

use vstd::prelude::*;
use rand::Rng;

verus! {

/// Relies on `rand::Rng::gen_range` (rand 0.8) on `rand::thread_rng()`: for
/// an inclusive range it panics only when `low > high`, and otherwise
/// returns a value of the range.
#[verifier::external_body]
pub(crate) fn random_between(low: i64, high: i64) -> (r: i64)
    requires
        low <= high,
    ensures
        low <= r <= high,
{
    rand::thread_rng().gen_range(low..=high)
}

} // verus!

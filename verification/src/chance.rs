//! The one source of randomness.

use vstd::prelude::*;
use rand::Rng;

verus! {

/// `rand::Rng::gen_range` on the generator of `rand::thread_rng`: a number
/// drawn from `low` up to but not including `high`. The contract claims the
/// range and nothing about which number comes; the call panics where
/// `low >= high`, which `requires` leaves out. The first call on a thread
/// seeds the generator from the system and panics where the system has no
/// randomness to give, whatever the arguments.
#[verifier::external_body]
pub(crate) fn random_in_range(low: i32, high: i32) -> (drawn: i32)
    requires
        low < high,
    ensures
        low <= drawn < high,
{
    rand::thread_rng().gen_range(low, high)
}

} // verus!

//! What the library takes on trust from the `rand` crate. Nothing in this
//! file is proved: Verus believes the contracts as they stand.

use rand::Rng;
use vstd::prelude::*;

verus! {

/// The generator of random numbers that `rand::thread_rng` hands out. The
/// library carries it through and never looks inside.
#[verifier::external_type_specification]
#[verifier::external_body]
pub struct ExThreadRng(rand::rngs::ThreadRng);

/// `rand::Rng::gen_range` on `rng`, for the range from `low` to `high` with
/// both ends included. The claim is what the method's documentation gives:
/// the value drawn lies in the range. Which value it is depends on the
/// generator and is not said. The method panics on an empty range, which
/// `requires` leaves out.
#[verifier::external_body]
pub(crate) fn random_between(rng: &mut rand::rngs::ThreadRng, low: i32, high: i32) -> (value: i32)
    requires
        low <= high,
    ensures
        low <= value <= high,
{
    rng.gen_range(low..=high)
}

} // verus!

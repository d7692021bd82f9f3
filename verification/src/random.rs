//! The one place where chance enters the library.

use rand::rngs::StdRng;
use rand::Rng;
use vstd::prelude::*;

verus! {

/// `rand::rngs::StdRng`, the generator that callers seed and hand in. Nothing
/// is known of its state.
#[verifier::external_type_specification]
#[verifier::external_body]
pub struct ExStdRng(StdRng);

/// Calls `rand::Rng::gen_range` on the half-open range `low..high`.
///
/// `gen_range` panics on an empty range, so the range must hold a number; what
/// it returns lies in the range. Which number comes back is not known, and two
/// calls may differ.
#[verifier::external_body]
pub(crate) fn random_range(rng: &mut StdRng, low: usize, high: usize) -> (drawn: usize)
    requires
        low < high,
    ensures
        low <= drawn < high,
{
    rng.gen_range(low..high)
}

} // verus!

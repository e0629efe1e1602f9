//! The one place the library draws randomness from.

use rand::Rng;
use vstd::prelude::*;

verus! {

/// Relies on rand's `Rng::gen_range`: a value drawn uniformly from the
/// half-open range `low..high`, which is nonempty by the precondition.
#[verifier::external_body]
pub(crate) fn gen_range_i64(low: i64, high: i64) -> (r: i64)
    requires
        low < high,
    ensures
        low <= r < high,
{
    rand::thread_rng().gen_range(low..high)
}

} // verus!

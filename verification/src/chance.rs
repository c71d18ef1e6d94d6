//! The one place where the crate asks for a random number.

use rand::Rng;
use vstd::prelude::*;

verus! {

/// Draws an integer from `low .. high`, `low` included and `high` excluded,
/// by `Rng::gen_range` on the generator that `rand::thread_rng` hands out.
///
/// The contract is taken on trust from `rand`: `gen_range(low, high)`
/// returns a value that is at least `low` and below `high`, and it panics
/// unless `low < high`, which is why that is required here. Nothing is
/// claimed about which value comes back, and two calls may differ. What the
/// contract cannot rule out is a system that refuses to seed the generator:
/// `thread_rng` panics then.
#[verifier::external_body]
pub(crate) fn random_in_range(low: i32, high: i32) -> (r: i32)
    requires
        low < high,
    ensures
        low <= r < high,
{
    rand::thread_rng().gen_range(low, high)
}

} // verus!

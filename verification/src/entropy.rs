//! The one source of randomness the protocol needs: announcement rolls and
//! silence identifiers, both drawn uniformly from the full unsigned range
//! short of its maximum (the maximum is reserved as the obituary fallback
//! for an unset roll).

use rand::RngExt;
use vstd::prelude::*;

verus! {

/// Relies on `rand::rng` and `rand::RngExt::random_range` over the
/// half-open range `0..usize::MAX`: the drawn value lies in the range, so
/// strictly below `usize::MAX`. Nothing else is assumed of it; callers
/// hold for every outcome.
#[verifier::external_body]
pub(crate) fn random_below_max() -> (r: usize)
    ensures
        r < usize::MAX,
{
    rand::rng().random_range(0..usize::MAX)
}

} // verus!

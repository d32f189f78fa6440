//! The one source of randomness: uniform integer draws for spawn positions.

use vstd::prelude::*;

verus! {

/// Relies on `rand::random_range` over `lo..hi`: a uniform draw from the
/// half-open range, which panics only on an empty range — ruled out here by
/// `requires`. Nothing more is assumed of the draw than its bounds.
#[verifier::external_body]
pub(crate) fn random_in(lo: i64, hi: i64) -> (r: i64)
    requires
        lo < hi,
    ensures
        lo <= r < hi,
{
    rand::random_range(lo..hi)
}

} // verus!

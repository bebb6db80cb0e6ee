//! The source of randomness.

use rand::Rng;
use vstd::prelude::*;

verus! {

/// Draws a whole number with `rand::Rng::random_range` on the half-open
/// range `lo..hi`, from the generator of the current thread that `rand::rng`
/// hands out.
///
/// Believed of that call: the number drawn lies in the range, at least `lo`
/// and below `hi`. The call panics on an empty range, which the precondition
/// leaves out; the generator panics only where the operating system gives it
/// no seed at its first use. Nothing is claimed of which number comes, so two
/// calls on the same range may differ.
#[verifier::external_body]
pub(crate) fn uniform(lo: i64, hi: i64) -> (r: i64)
    requires
        lo < hi,
    ensures
        lo <= r < hi,
{
    rand::rng().random_range(lo..hi)
}

} // verus!

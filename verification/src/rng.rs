//! The library's one source of randomness.
//!
//! Every probabilistic gate and every randomized formation parameter draws
//! through [`rand_range`], so nothing downstream depends on more than the
//! range of the sample.

use vstd::prelude::*;

verus! {

/// Relies on rand::Rng::gen_range over the half-open range `lo..hi`:
/// the sample is uniform in `[lo, hi)`, and the call panics only on an
/// empty range, which the precondition rules out.
#[verifier::external_body]
pub(crate) fn rand_range(lo: i64, hi: i64) -> (r: i64)
    requires
        lo < hi,
    ensures
        lo <= r < hi,
{
    rand::Rng::gen_range(&mut rand::thread_rng(), lo..hi)
}

} // verus!

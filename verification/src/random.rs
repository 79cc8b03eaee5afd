use vstd::prelude::*;

use rand::Rng;

verus! {

/// Relies on rand's `Rng::gen_range` over an inclusive integer range: the
/// sample always lies within the given bounds, and the call panics only
/// on an empty range, which the precondition rules out.  Nothing more is
/// promised of the sample: to the verifier two calls may differ.
#[verifier::external_body]
pub(crate) fn rand_in_range(lo: i64, hi: i64) -> (r: i64)
    requires
        lo <= hi,
    ensures
        lo <= r <= hi,
{
    rand::thread_rng().gen_range(lo..=hi)
}

} // verus!

//! The crate's one source of randomness, behind a trusted wrapper.

use vstd::prelude::*;

verus! {

/// Relies on `rand::Rng::gen_range` on the thread-local generator
/// (`rand::thread_rng`): returns a value uniformly distributed in
/// `[lo, hi)`, and panics only when the range is empty, which the
/// precondition rules out. Nothing more is assumed of the draw.
#[verifier::external_body]
pub(crate) fn rand_range(lo: i64, hi: i64) -> (r: i64)
    requires
        lo < hi,
    ensures
        lo <= r < hi,
{
    rand::Rng::gen_range(&mut rand::thread_rng(), lo..hi)
}

} // verus!

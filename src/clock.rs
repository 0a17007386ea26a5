//! The two sources of nondeterminism: the wall clock and a random draw.

use vstd::prelude::*;
use rand::Rng;
use crate::models::Millis;

verus! {

/// Relies on chrono's `Utc::now` and `DateTime::timestamp_millis`: the current
/// time in milliseconds since the Unix epoch. Nothing is promised of it.
#[verifier::external_body]
pub(crate) fn now_millis() -> (r: Millis) {
    chrono::Utc::now().timestamp_millis()
}

/// Relies on rand's `Rng::gen_range` over `thread_rng`: a uniform draw from
/// `0..n`, which panics on an empty range.
#[verifier::external_body]
pub(crate) fn random_below(n: usize) -> (r: usize)
    requires
        n > 0,
    ensures
        r < n,
{
    rand::thread_rng().gen_range(0..n)
}

} // verus!

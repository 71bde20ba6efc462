//! The two host services the visualiser consults: a random number source
//! and the local wall clock. Each sits behind a trusted wrapper with the
//! contract its crate documents.

use vstd::prelude::*;

verus! {

/// Relies on rand::random_range: a uniform value in the given (non-empty)
/// range. Nothing further can be promised of a random draw.
#[verifier::external_body]
pub(crate) fn random_below(n: u32) -> (r: u32)
    requires
        n >= 1,
    ensures
        r < n,
{
    rand::random_range(0..n)
}

/// Relies on chrono::Local::now and chrono::Timelike's hour and minute: the
/// current local wall-clock time, hour from 0 to 23 and minute from 0 to 59.
/// Nothing can be promised about which time comes back.
#[verifier::external_body]
pub(crate) fn local_time_hm() -> (r: (u32, u32))
    ensures
        r.0 < 24,
        r.1 < 60,
{
    let now = chrono::Local::now();
    (chrono::Timelike::hour(&now), chrono::Timelike::minute(&now))
}

} // verus!

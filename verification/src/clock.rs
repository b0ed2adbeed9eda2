//! The one clock read the handlers perform when they stamp a mutation.
use crate::types::Timespec;
use vstd::prelude::*;

verus! {

/// Relies on `time::now().to_timespec()`: the wall clock at the moment of
/// the call, as seconds since the epoch and a nanosecond offset that the
/// crate constructs through `Timespec::new`, which admits only offsets in
/// `[0, 1_000_000_000)`.  Nothing relates two reads of the clock.
#[verifier::external_body]
pub(crate) fn now_timespec() -> (t: Timespec)
    ensures
        0 <= t.nsec < 1_000_000_000,
{
    let ts = time::now().to_timespec();
    Timespec { sec: ts.sec, nsec: ts.nsec }
}

} // verus!

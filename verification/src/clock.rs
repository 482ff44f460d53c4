//! The wall clock.

use vstd::prelude::*;
use crate::inode::TimespecDef;

verus! {

/// Nanoseconds in one second.
pub const NSEC_PER_SEC: i32 = 1_000_000_000;

/// Reads the wall clock with `time::get_time`.
///
/// Trusted: the nanoseconds lie within one second, which `time` checks
/// whenever it builds a `Timespec`. Nothing else is known of the result.
#[verifier::external_body]
pub(crate) fn get_time() -> (now: TimespecDef)
    ensures
        0 <= now.nsec < NSEC_PER_SEC,
{
    let now = time::get_time();
    TimespecDef { sec: now.sec, nsec: now.nsec }
}

} // verus!

//! Timestamp conversion for raw filesystem reads.
//!
//! NTFS stores times as 100-nanosecond intervals since 1601-01-01 00:00:00
//! UTC; the archive wants Unix seconds. The difference between the two
//! epochs is 11 644 473 600 seconds.

use vstd::prelude::*;

verus! {

/// How many 100-nanosecond intervals make one second.
pub open spec fn intervals_per_second() -> int {
    10_000_000
}

/// The seconds between the 1601 epoch and the Unix epoch.
pub open spec fn epoch_difference_seconds() -> int {
    11_644_473_600
}

/// Convert an NT timestamp — 100-nanosecond intervals since the 1601
/// epoch — to Unix seconds, truncating the sub-second part.
pub fn nt_to_unix_secs(nt: u64) -> (r: i64)
    ensures
        r == nt as int / intervals_per_second() - epoch_difference_seconds(),
{
    let seconds = nt / 10_000_000;
    proof {
        assert(seconds <= u64::MAX / 10_000_000);
    }
    seconds as i64 - 11_644_473_600
}

} // verus!

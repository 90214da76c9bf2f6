//! What is known of a number that came from a clock.
//!
//! The statements below hold of what the clocks gave and are made by the functions that read
//! them. What they say of a number stays inside this module, so that no other part of the library
//! can claim of a number that it was read: such a claim always goes back to a reading.
use vstd::prelude::*;

verus! {

/// Whether a clock that was started at `epoch` gave `nanos` as the time that had passed since: a
/// number of nanoseconds that a `std::time::Duration` can hold.
pub closed spec fn read_since(epoch: tokio::time::Instant, nanos: u128) -> bool {
    nanos < 0x1_0000_0000_0000_0000 * 1_000_000_000
}

/// Whether the system's clock gave `since_epoch` as the whole seconds since the Unix epoch: a
/// number of seconds that a `std::time::Duration` can hold, or nothing before the epoch.
pub closed spec fn read_from_system(since_epoch: Option<u64>) -> bool {
    since_epoch matches Some(seconds) ==> seconds < 0x1_0000_0000_0000_0000
}

} // verus!

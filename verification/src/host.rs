//! The host: an observer outside the guest, such as the emulator that runs it.

use vstd::prelude::*;

use crate::layout::GuestAddr;

verus! {

/// The requests that a host takes about the guest's allocations. What a
/// request returns is for the host to decide.
pub trait Host {
    /// How the host reports a failure.
    type Error;

    /// Tells the host that `[start, end)` is now a live allocation.
    fn track(start: GuestAddr, end: GuestAddr) -> Result<(), Self::Error>;

    /// Tells the host that the allocation that starts at `start` is gone.
    fn untrack(start: GuestAddr) -> Result<(), Self::Error>;
}

} // verus!

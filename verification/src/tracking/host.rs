//! Tracking by relay: every request is handed on to the host, which takes
//! the start and the end of a range where the guest speaks of a start and a
//! length.

use core::marker::PhantomData;
use syscalls::Errno;
use vstd::prelude::*;

use crate::host::Host;
use crate::layout::GuestAddr;
use crate::tracking::{Notice, Tracking};

verus! {

/// `syscalls::Errno`, the error code of a system call. The type is only
/// named here: nothing is claimed of its values.
#[verifier::external_type_specification]
#[verifier::external_body]
pub struct ExErrno(Errno);

/// Why a relayed request failed.
#[derive(Debug, PartialEq)]
pub enum HostTrackingError<H: Host> {
    /// The host refused the request, with this error.
    HostError(H::Error),
}

/// The range `[start, start + len)` as the host wants it: its start and its
/// end.
pub fn host_range(start: GuestAddr, len: usize) -> (r: (GuestAddr, GuestAddr))
    requires
        start + len <= usize::MAX,
    ensures
        r.0 == start,
        r.1 == start + len,
{
    (start, start + len)
}

/// What the relay returns for an answer of the host: success for success,
/// and the host's error inside `HostError`.
pub fn relay<H: Host>(answer: Result<(), H::Error>) -> (r: Result<(), HostTrackingError<H>>)
    ensures
        answer is Ok <==> r is Ok,
        answer matches Err(e) ==> r == Err::<(), HostTrackingError<H>>(
            HostTrackingError::HostError(e),
        ),
{
    match answer {
        Ok(()) => Ok(()),
        Err(e) => Err(HostTrackingError::HostError(e)),
    }
}

/// A tracker that relays to the host `H`.
pub struct HostTracking<H> {
    phantom: PhantomData<H>,
    relayed: Ghost<Seq<Notice>>,
}

impl<H: Host> HostTracking<H> {
    /// A relay that has handed on nothing yet.
    pub fn new() -> (r: Result<Self, Errno>)
        ensures
            r matches Ok(t) && t.wf() && t.notices() == Seq::<Notice>::empty(),
    {
        Ok(HostTracking::<H> { phantom: PhantomData, relayed: Ghost(Seq::empty()) })
    }
}

impl<H: Host> Tracking for HostTracking<H> {
    type Error = HostTrackingError<H>;

    closed spec fn wf(&self) -> bool {
        true
    }

    /// The requests that the host accepted.
    closed spec fn notices(&self) -> Seq<Notice> {
        self.relayed@
    }

    /// The host may refuse any request.
    open spec fn may_refuse_track(&self, start: GuestAddr, len: usize) -> bool {
        true
    }

    /// The host may refuse any request.
    open spec fn may_refuse_untrack(&self, start: GuestAddr) -> bool {
        true
    }

    /// Hands `[start, start + len)` to the host as a start and an end. The
    /// host decides whether that succeeds.
    fn track(&mut self, start: GuestAddr, len: usize) -> (r: Result<(), HostTrackingError<H>>) {
        let range = host_range(start, len);
        let r = relay::<H>(H::track(range.0, range.1));
        proof {
            if r is Ok {
                self.relayed@ = self.relayed@.push(Notice::Begin { start, len });
            }
        }
        r
    }

    /// Hands `start` to the host. The host decides whether that succeeds.
    fn untrack(&mut self, start: GuestAddr) -> (r: Result<(), HostTrackingError<H>>) {
        let r = relay::<H>(H::untrack(start));
        proof {
            if r is Ok {
                self.relayed@ = self.relayed@.push(Notice::End { start });
            }
        }
        r
    }
}

} // verus!

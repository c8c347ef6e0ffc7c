//! Tracking inside the guest: a ledger of live allocations, with no
//! observer to reach.

use std::collections::BTreeMap;
use vstd::prelude::*;

use crate::layout::GuestAddr;
use crate::tracking::{lemma_live_after_push, live_after, Notice, Tracking};

verus! {

/// Why the ledger refused a request.
#[derive(Clone, Copy, Debug, PartialEq, Eq, Structural)]
pub enum GuestFastTrackingError {
    /// An allocation that starts at this address is already live.
    TrackingConflict(GuestAddr),
    /// No live allocation starts at this address.
    AllocationNotFound(GuestAddr),
}

/// A ledger of the live allocations, each start with its length.
pub struct GuestFastTracking {
    ranges: BTreeMap<GuestAddr, usize>,
    taken: Ghost<Seq<Notice>>,
}

impl GuestFastTracking {
    /// An empty ledger.
    pub fn new() -> (r: Result<Self, GuestFastTrackingError>)
        ensures
            r matches Ok(t) && t.wf() && t.notices() == Seq::<Notice>::empty(),
    {
        Ok(GuestFastTracking { ranges: BTreeMap::new(), taken: Ghost(Seq::empty()) })
    }

    /// The length of the live allocation that starts at `start`, if there is
    /// one.
    pub fn get(&self, start: GuestAddr) -> (r: Option<usize>)
        requires
            self.wf(),
        ensures
            match r {
                Some(len) => live_after(self.notices()).contains_key(start) && live_after(self.notices())[start] == len,
                None => !live_after(self.notices()).contains_key(start),
            },
    {
        match self.ranges.get(&start) {
            Some(len) => Some(*len),
            None => None,
        }
    }

    /// The number of live allocations.
    pub fn len(&self) -> (r: usize)
        requires
            self.wf(),
        ensures
            r == live_after(self.notices()).len(),
    {
        self.ranges.len()
    }
}

impl Tracking for GuestFastTracking {
    type Error = GuestFastTrackingError;

    /// The ledger holds what the notices it took leave.
    closed spec fn wf(&self) -> bool {
        self.ranges@ == live_after(self.taken@)
    }

    closed spec fn notices(&self) -> Seq<Notice> {
        self.taken@
    }

    /// The ledger refuses a start that is live.
    open spec fn may_refuse_track(&self, start: GuestAddr, len: usize) -> bool {
        live_after(self.notices()).contains_key(start)
    }

    /// The ledger refuses a start that is not live.
    open spec fn may_refuse_untrack(&self, start: GuestAddr) -> bool {
        !live_after(self.notices()).contains_key(start)
    }

    /// Enters `[start, start + len)` in the ledger, unless an allocation
    /// that starts at `start` is live.
    fn track(&mut self, start: GuestAddr, len: usize) -> (r: Result<(), GuestFastTrackingError>)
        ensures
            r is Ok <==> !live_after(old(self).notices()).contains_key(start),
            r matches Err(e) ==> e == GuestFastTrackingError::TrackingConflict(start),
    {
        if self.ranges.contains_key(&start) {
            return Err(GuestFastTrackingError::TrackingConflict(start));
        }
        let _ = self.ranges.insert(start, len);
        proof {
            lemma_live_after_push(self.taken@, Notice::Begin { start, len });
            self.taken@ = self.taken@.push(Notice::Begin { start, len });
        }
        Ok(())
    }

    /// Strikes the allocation that starts at `start` from the ledger, if it
    /// is live.
    fn untrack(&mut self, start: GuestAddr) -> (r: Result<(), GuestFastTrackingError>)
        ensures
            r is Ok <==> live_after(old(self).notices()).contains_key(start),
            r matches Err(e) ==> e == GuestFastTrackingError::AllocationNotFound(start),
    {
        match self.ranges.remove(&start) {
            Some(_) => {
                proof {
                    lemma_live_after_push(self.taken@, Notice::End { start });
                    self.taken@ = self.taken@.push(Notice::End { start });
                }
                Ok(())
            },
            None => {
                assert(self.ranges@ =~= old(self).ranges@);
                Err(GuestFastTrackingError::AllocationNotFound(start))
            },
        }
    }
}

} // verus!

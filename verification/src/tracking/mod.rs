//! Tracking: telling an observer when an allocation begins and ends.

use vstd::prelude::*;

use crate::layout::GuestAddr;

pub mod guest_fast;
pub mod host;

verus! {

/// What an observer was told, and took.
#[derive(Clone, Copy, Debug, PartialEq, Eq, Structural)]
pub enum Notice {
    /// `[start, start + len)` is now a live allocation.
    Begin { start: GuestAddr, len: usize },
    /// The allocation that starts at `start` is gone.
    End { start: GuestAddr },
}

/// The allocations that are live after the notices `s`: each start with its
/// length.
pub open spec fn live_after(s: Seq<Notice>) -> Map<GuestAddr, usize>
    decreases s.len(),
{
    if s.len() == 0 {
        Map::empty()
    } else {
        match s.last() {
            Notice::Begin { start, len } => live_after(s.drop_last()).insert(start, len),
            Notice::End { start } => live_after(s.drop_last()).remove(start),
        }
    }
}

/// Whether the notices `s` come in pairs: no allocation begins while one
/// with the same start is live, and none ends that is not live.
pub open spec fn paired(s: Seq<Notice>) -> bool
    decreases s.len(),
{
    s.len() == 0 || (paired(s.drop_last()) && match s.last() {
        Notice::Begin { start, len } => !live_after(s.drop_last()).contains_key(start),
        Notice::End { start } => live_after(s.drop_last()).contains_key(start),
    })
}

/// An observer of allocation lifecycles.
pub trait Tracking: Sized {
    /// How the observer reports a failure.
    type Error;

    /// The internal consistency of the observer.
    spec fn wf(&self) -> bool;

    /// Every notice that the observer took, in the order in which it took
    /// them. A request that fails leaves no notice.
    spec fn notices(&self) -> Seq<Notice>;

    /// Whether a request to track `[start, start + len)` may fail. Where
    /// this is false the request succeeds.
    spec fn may_refuse_track(&self, start: GuestAddr, len: usize) -> bool;

    /// Whether a request to forget the allocation at `start` may fail. Where
    /// this is false the request succeeds.
    spec fn may_refuse_untrack(&self, start: GuestAddr) -> bool;

    /// Tells the observer that `[start, start + len)` is now a live
    /// allocation. A failure leaves the observer as it was.
    fn track(&mut self, start: GuestAddr, len: usize) -> (r: Result<(), Self::Error>)
        requires
            old(self).wf(),
            start + len <= usize::MAX,
        ensures
            final(self).wf(),
            r is Ok ==> final(self).notices() == old(self).notices().push(
                Notice::Begin { start, len },
            ),
            r is Err ==> final(self).notices() == old(self).notices(),
            r is Err ==> old(self).may_refuse_track(start, len),
    ;

    /// Tells the observer that the allocation that starts at `start` is
    /// gone. A failure leaves the observer as it was.
    fn untrack(&mut self, start: GuestAddr) -> (r: Result<(), Self::Error>)
        requires
            old(self).wf(),
        ensures
            final(self).wf(),
            r is Ok ==> final(self).notices() == old(self).notices().push(Notice::End { start }),
            r is Err ==> final(self).notices() == old(self).notices(),
            r is Err ==> old(self).may_refuse_untrack(start),
    ;
}

/// One more notice changes what is live by the one allocation it speaks of.
pub proof fn lemma_live_after_push(s: Seq<Notice>, n: Notice)
    ensures
        live_after(s.push(n)) == match n {
            Notice::Begin { start, len } => live_after(s).insert(start, len),
            Notice::End { start } => live_after(s).remove(start),
        },
        paired(s.push(n)) <==> paired(s) && match n {
            Notice::Begin { start, len } => !live_after(s).contains_key(start),
            Notice::End { start } => live_after(s).contains_key(start),
        },
{
    assert(s.push(n).drop_last() =~= s);
}

/// An allocation whose begin was not followed by its end is live.
pub proof fn lemma_live_since_begin(s: Seq<Notice>, i: int)
    requires
        0 <= i < s.len(),
        s[i] is Begin,
        forall|k: int| i < k < s.len() ==> s[k] != (Notice::End { start: s[i]->Begin_start }),
    ensures
        live_after(s).contains_key(s[i]->Begin_start),
    decreases s.len(),
{
    if i < s.len() - 1 {
        let front = s.drop_last();
        lemma_live_since_begin(front, i);
    }
}

/// In notices that come in pairs, an allocation does not begin twice
/// without an end in between.
pub proof fn lemma_no_second_begin(s: Seq<Notice>, i: int, j: int)
    requires
        paired(s),
        0 <= i < j < s.len(),
        s[i] is Begin,
        s[j] is Begin,
        s[i]->Begin_start == s[j]->Begin_start,
    ensures
        exists|k: int| i < k < j && #[trigger] s[k] == (Notice::End { start: s[i]->Begin_start }),
    decreases s.len(),
{
    let front = s.drop_last();
    if j < s.len() - 1 {
        lemma_no_second_begin(front, i, j);
    } else {
        if forall|k: int| i < k < j ==> s[k] != (Notice::End { start: s[i]->Begin_start }) {
            lemma_live_since_begin(front, i);
        }
    }
}

} // verus!

//! The quarantine: freed allocations held back from reuse, oldest first.

use std::collections::VecDeque;
use vstd::prelude::*;

use crate::allocator::record::AllocationRecord;

verus! {

/// The sum of the accounted sizes of `s`.
pub open spec fn occupancy(s: Seq<AllocationRecord>) -> int
    decreases s.len(),
{
    if s.len() == 0 {
        0
    } else {
        occupancy(s.drop_last()) + s.last().total_size
    }
}

/// How many records leave the head of `s` until what stays fits in
/// `capacity`.
pub open spec fn evict_count(s: Seq<AllocationRecord>, capacity: int) -> nat
    decreases s.len(),
{
    if s.len() == 0 || occupancy(s) <= capacity {
        0
    } else {
        1 + evict_count(s.skip(1), capacity)
    }
}

/// The occupancy of a queue is that of its head and that of the rest.
pub proof fn lemma_occupancy_head(s: Seq<AllocationRecord>)
    requires
        s.len() > 0,
    ensures
        occupancy(s) == s[0].total_size + occupancy(s.skip(1)),
    decreases s.len(),
{
    if s.len() == 1 {
        assert(s.drop_last() =~= Seq::<AllocationRecord>::empty());
        assert(s.skip(1) =~= Seq::<AllocationRecord>::empty());
    } else {
        lemma_occupancy_head(s.drop_last());
        assert(s.drop_last().skip(1) =~= s.skip(1).drop_last());
    }
}

/// An occupancy is never negative.
pub proof fn lemma_occupancy_nonnegative(s: Seq<AllocationRecord>)
    ensures
        occupancy(s) >= 0,
    decreases s.len(),
{
    if s.len() > 0 {
        lemma_occupancy_nonnegative(s.drop_last());
    }
}

/// Appending a record adds its accounted size to the occupancy.
pub proof fn lemma_occupancy_push(s: Seq<AllocationRecord>, r: AllocationRecord)
    ensures
        occupancy(s.push(r)) == occupancy(s) + r.total_size,
{
    assert(s.push(r).drop_last() =~= s);
}

/// What stays after eviction fits in the capacity, and nothing that could
/// have stayed has left: with one eviction less the queue would not fit.
pub proof fn lemma_evict_count(s: Seq<AllocationRecord>, capacity: int)
    requires
        capacity >= 0,
    ensures
        evict_count(s, capacity) <= s.len(),
        occupancy(s.skip(evict_count(s, capacity) as int)) <= capacity,
        forall|k: int|
            0 <= k < evict_count(s, capacity) ==> occupancy(#[trigger] s.skip(k)) > capacity,
    decreases s.len(),
{
    if s.len() == 0 || occupancy(s) <= capacity {
        assert(s.skip(0) =~= s);
    } else {
        let t = s.skip(1);
        lemma_evict_count(t, capacity);
        let n = evict_count(t, capacity);
        assert(t.skip(n as int) =~= s.skip(n as int + 1));
        assert forall|k: int| 0 <= k < evict_count(s, capacity) implies occupancy(
            #[trigger] s.skip(k),
        ) > capacity by {
            if k == 0 {
                assert(s.skip(0) =~= s);
            } else {
                assert(t.skip(k - 1) =~= s.skip(k));
            }
        }
    }
}

/// A bounded first-in, first-out queue of freed allocations.
pub struct Quarantine {
    entries: VecDeque<AllocationRecord>,
    capacity: usize,
    used: usize,
}

impl View for Quarantine {
    type V = Seq<AllocationRecord>;

    closed spec fn view(&self) -> Seq<AllocationRecord> {
        self.entries@
    }
}

impl Quarantine {
    /// The occupancy is accounted for and within the capacity.
    pub closed spec fn wf(&self) -> bool {
        &&& self.used == occupancy(self.entries@)
        &&& self.used <= self.capacity
    }

    /// The occupancy that the queue may not exceed.
    pub closed spec fn limit(&self) -> int {
        self.capacity as int
    }

    /// The occupancy of a well-formed queue is within its capacity.
    pub proof fn lemma_bounded(&self)
        requires
            self.wf(),
        ensures
            0 <= occupancy(self@) <= self.limit(),
    {
    }

    /// An empty quarantine that holds back at most `capacity` bytes.
    pub fn new(capacity: usize) -> (r: Self)
        ensures
            r.wf(),
            r@ == Seq::<AllocationRecord>::empty(),
            r.limit() == capacity,
    {
        Quarantine { entries: VecDeque::new(), capacity, used: 0 }
    }

    /// The occupancy that the queue may not exceed.
    pub fn capacity(&self) -> (r: usize)
        ensures
            r == self.limit(),
    {
        self.capacity
    }

    /// The sum of the accounted sizes of the records in the queue.
    pub fn used(&self) -> (r: usize)
        requires
            self.wf(),
        ensures
            r == occupancy(self@),
    {
        self.used
    }

    /// The number of records in the queue.
    pub fn len(&self) -> (r: usize)
        ensures
            r == self@.len(),
    {
        self.entries.len()
    }

    /// The record at place `i`, counted from the oldest.
    pub fn get(&self, i: usize) -> (r: Option<AllocationRecord>)
        ensures
            match r {
                Some(record) => i < self@.len() && record == self@[i as int],
                None => i >= self@.len(),
            },
    {
        if i < self.entries.len() {
            Some(self.entries[i])
        } else {
            None
        }
    }

    /// Appends `record` and evicts from the head until the occupancy is
    /// within the capacity. Returns what was evicted, oldest first.
    pub fn push(&mut self, record: AllocationRecord) -> (evicted: Vec<AllocationRecord>)
        requires
            old(self).wf(),
        ensures
            final(self).wf(),
            final(self).limit() == old(self).limit(),
            evicted@ + final(self)@ == old(self)@.push(record),
            ({
                let all = old(self)@.push(record);
                let k = evict_count(all, old(self).limit()) as int;
                &&& evicted@ == all.subrange(0, k)
                &&& final(self)@ == all.skip(k)
            }),
    {
        let ghost all = self@.push(record);
        let ghost cap = self.capacity as int;
        let mut evicted: Vec<AllocationRecord> = Vec::new();
        while self.entries.len() > 0 && (record.total_size > self.capacity || self.used
            > self.capacity - record.total_size)
            invariant
                self.capacity == cap,
                self.used == occupancy(self.entries@),
                self.used <= self.capacity,
                evicted@ + self.entries@.push(record) == all,
                evict_count(all, cap) == evicted@.len() + evict_count(
                    self.entries@.push(record),
                    cap,
                ),
            decreases self.entries@.len(),
        {
            let ghost rest = self.entries@.push(record);
            proof {
                lemma_occupancy_push(self.entries@, record);
                lemma_occupancy_head(self.entries@);
                lemma_occupancy_nonnegative(self.entries@.skip(1));
            }
            let head = self.entries.pop_front().unwrap();
            self.used = self.used - head.total_size;
            evicted.push(head);
            proof {
                assert(rest.skip(1) =~= self.entries@.push(record));
            }
        }
        proof {
            lemma_occupancy_push(self.entries@, record);
        }
        if record.total_size > self.capacity {
            proof {
                let rest = self.entries@.push(record);
                assert(evict_count(rest.skip(1), cap) == 0);
            }
            evicted.push(record);
        } else {
            self.entries.push_back(record);
            self.used = self.used + record.total_size;
        }
        evicted
    }

    /// Empties the queue and returns what it held, oldest first.
    pub fn drain(&mut self) -> (evicted: Vec<AllocationRecord>)
        requires
            old(self).wf(),
        ensures
            final(self).wf(),
            final(self).limit() == old(self).limit(),
            evicted@ == old(self)@,
            final(self)@ == Seq::<AllocationRecord>::empty(),
    {
        let mut evicted: Vec<AllocationRecord> = Vec::new();
        while self.entries.len() > 0
            invariant
                self.capacity == old(self).capacity,
                evicted@ + self.entries@ == old(self)@,
            decreases self.entries@.len(),
        {
            let head = self.entries.pop_front().unwrap();
            evicted.push(head);
        }
        self.used = 0;
        evicted
    }
}

} // verus!

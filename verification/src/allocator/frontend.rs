//! The allocator front end: every allocation sits between two poisoned
//! redzones, and every freed allocation waits in the quarantine, poisoned,
//! before its block goes back to the raw allocator.

use std::collections::BTreeMap;
use vstd::prelude::*;

use crate::allocator::backend::{overlap, Backend};
use crate::allocator::consistency::{
    agreement,
    bookkeeping,
    guarded,
    lemma_agree_allocate,
    lemma_agree_evict,
    lemma_agree_quarantine,
    lemma_book_allocate,
    lemma_book_evict,
    lemma_book_quarantine,
    lemma_paint_misses,
    lemma_released,
    misses_all,
    quarantined_form,
    released,
    returned,
};
use crate::allocator::quarantine::{evict_count, occupancy, Quarantine};
use crate::allocator::record::{
    block_size_of,
    body_base,
    place,
    plan,
    AllocationRecord,
    AllocationState,
};
use crate::layout::{lemma_align_up, GuestAddr};
use crate::shadow::{
    all_in_state,
    any_poison,
    lemma_window_poisoned,
    none_addressable,
    paint,
    range_tracked,
    ByteState,
    Shadow,
    ShadowError,
};
use crate::tracking::{lemma_live_after_push, live_after, paired, Notice, Tracking};

verus! {

/// The redzone width of a front end that is given no other.
pub const DEFAULT_REDZONE_SIZE: usize = 128;

/// The quarantine capacity of a front end that is given no other.
pub const DEFAULT_QUARANTINE_SIZE: usize = 52428800;

/// Why an operation of the runtime failed. `E` is the error of the tracker.
#[derive(Debug, PartialEq, Eq)]
pub enum FrontendError<E> {
    /// The raw allocator could not serve the request.
    OutOfMemory,
    /// The address is not the base of a live allocation.
    InvalidFree,
    /// A checked access touches a byte that is poisoned or unaddressable.
    PoisonedAccess,
    /// No live allocation has this base.
    InvalidAddress,
    /// The shadow refused a range.
    Shadow(ShadowError),
    /// The tracker reported a failure.
    Tracking(E),
}

/// Whether handing back the blocks of `s`, oldest first, can turn the raw
/// allocator `before` into `after`.
pub open spec fn handed_back<B: Backend>(before: B, s: Seq<AllocationRecord>, after: B) -> bool
    decreases s.len(),
{
    if s.len() == 0 {
        after == before
    } else {
        exists|mid: B|
            handed_back(before, s.drop_last(), mid) && #[trigger] mid.takes_back(
                s.last().block as int,
                s.last().block_size as int,
                &after,
            )
    }
}

/// The front end over a raw allocator `B`, a shadow `S` and a tracker `T`.
pub struct DefaultFrontend<B: Backend, S: Shadow, T: Tracking> {
    backend: B,
    shadow: S,
    tracking: T,
    redzone: usize,
    allocations: BTreeMap<GuestAddr, AllocationRecord>,
    quarantine: Quarantine,
}

impl<B: Backend, S: Shadow, T: Tracking> DefaultFrontend<B, S, T> {
    /// The raw allocator, as a value.
    pub closed spec fn backend_of(&self) -> B {
        self.backend
    }

    /// The shadow, as a value.
    pub closed spec fn shadow_of(&self) -> S {
        self.shadow
    }

    /// The tracker, as a value.
    pub closed spec fn tracker_of(&self) -> T {
        self.tracking
    }

    /// The live allocations, each under its base.
    pub closed spec fn records(&self) -> Map<GuestAddr, AllocationRecord> {
        self.allocations@
    }

    /// The quarantined allocations, oldest first.
    pub closed spec fn quarantined(&self) -> Seq<AllocationRecord> {
        self.quarantine@
    }

    /// The width of a redzone.
    pub closed spec fn redzone(&self) -> int {
        self.redzone as int
    }

    /// The occupancy that the quarantine may not exceed.
    pub closed spec fn quarantine_limit(&self) -> int {
        self.quarantine.limit()
    }

    /// The state of every byte that the shadow tracks.
    pub open spec fn shadow_view(&self) -> Map<int, ByteState> {
        self.shadow_of()@
    }

    /// First address that the shadow tracks.
    pub open spec fn shadow_lo(&self) -> int {
        self.shadow_of().lo()
    }

    /// One past the last address that the shadow tracks.
    pub open spec fn shadow_hi(&self) -> int {
        self.shadow_of().hi()
    }

    /// Every notice that the tracker took, in the order in which it took
    /// them.
    pub open spec fn notices(&self) -> Seq<Notice> {
        self.tracker_of().notices()
    }

    /// The allocations that the tracker holds as live, each start with its
    /// length.
    pub open spec fn live_ranges(&self) -> Map<GuestAddr, usize> {
        live_after(self.notices())
    }

    /// The blocks that the raw allocator has handed out, each start with its
    /// size.
    pub open spec fn blocks(&self) -> Map<int, int> {
        self.backend_of().blocks()
    }

    /// Whether the raw allocator would serve a request for `size` bytes.
    pub open spec fn can_serve(&self, size: int) -> bool {
        self.backend_of().can_alloc(size)
    }

    /// The base that an allocation of `len` bytes aligned to `align` would
    /// get, were it served.
    pub open spec fn next_base(&self, len: int, align: int) -> int {
        body_base(
            self.backend_of().next_block(block_size_of(len, align, self.redzone())),
            align,
            self.redzone(),
        )
    }

    /// The internal consistency of the front end: that of its parts, a pool
    /// that the shadow covers, and the bookkeeping invariant.
    pub closed spec fn wf(&self) -> bool {
        &&& self.backend.wf()
        &&& self.shadow.wf()
        &&& self.tracking.wf()
        &&& self.quarantine.wf()
        &&& self.shadow.lo() <= self.backend.lo()
        &&& self.backend.hi() <= self.shadow.hi()
        &&& bookkeeping(
            self.backend.blocks(),
            self.allocations@,
            self.quarantine@,
            self.redzone as int,
        )
    }

    /// Whether the shadow and the tracker agree with the records. Nothing
    /// but a direct request on a range or an address of the front end's own
    /// can end this.
    pub open spec fn consistent(&self) -> bool {
        agreement(self.shadow_view(), self.live_ranges(), self.records(), self.quarantined())
    }

    /// Whether the tracker holds nothing as live but the live allocations of
    /// the front end. A direct request to track ends this.
    pub open spec fn tracks_own(&self) -> bool {
        forall|a: GuestAddr| #[trigger]
            self.live_ranges().contains_key(a) ==> self.records().contains_key(a)
    }

    /// Whether the notices that the tracker took come in pairs: one begin
    /// and then one end for each life of an allocation.
    pub open spec fn tracks_in_pairs(&self) -> bool {
        paired(self.notices())
    }

    /// Whether `self` and `other` hold the same records, quarantine, shadow
    /// state, notices and blocks.
    pub open spec fn same_state(&self, other: &Self) -> bool {
        &&& self.records() == other.records()
        &&& self.quarantined() == other.quarantined()
        &&& self.shadow_view() == other.shadow_view()
        &&& self.notices() == other.notices()
        &&& self.blocks() == other.blocks()
    }

    /// Whether the configuration of `self` is that of `other`: the width of
    /// a redzone, the capacity of the quarantine, the region that the shadow
    /// tracks and the pool of the raw allocator.
    pub open spec fn same_config(&self, other: &Self) -> bool {
        &&& self.redzone() == other.redzone()
        &&& self.quarantine_limit() == other.quarantine_limit()
        &&& self.shadow_lo() == other.shadow_lo()
        &&& self.shadow_hi() == other.shadow_hi()
        &&& self.backend_of().lo() == other.backend_of().lo()
        &&& self.backend_of().hi() == other.backend_of().hi()
    }

    /// A front end with no allocation, over a raw allocator that has handed
    /// out nothing yet. Refused when the shadow does not cover the pool of
    /// the raw allocator.
    pub fn new(backend: B, shadow: S, tracking: T, redzone: usize, quarantine_size: usize) -> (r:
        Result<Self, FrontendError<T::Error>>)
        requires
            backend.wf(),
            shadow.wf(),
            tracking.wf(),
            backend.blocks() == Map::<int, int>::empty(),
        ensures
            r is Ok <==> shadow.lo() <= backend.lo() && backend.hi() <= shadow.hi(),
            r matches Ok(f) ==> {
                &&& f.wf()
                &&& f.consistent()
                &&& f.redzone() == redzone
                &&& f.quarantine_limit() == quarantine_size
                &&& f.records() == Map::<GuestAddr, AllocationRecord>::empty()
                &&& f.quarantined() == Seq::<AllocationRecord>::empty()
                &&& f.backend_of() == backend
                &&& f.shadow_of() == shadow
                &&& f.tracker_of() == tracking
            },
            r matches Err(e) ==> e == FrontendError::<T::Error>::Shadow(ShadowError::OutOfRange),
    {
        if shadow.start() > backend.start() || backend.end() > shadow.end() {
            return Err(FrontendError::Shadow(ShadowError::OutOfRange));
        }
        Ok(
            DefaultFrontend {
                backend,
                shadow,
                tracking,
                redzone,
                allocations: BTreeMap::new(),
                quarantine: Quarantine::new(quarantine_size),
            },
        )
    }

    /// The width of a redzone.
    pub fn redzone_size(&self) -> (r: usize)
        ensures
            r == self.redzone(),
    {
        self.redzone
    }

    /// The occupancy that the quarantine may not exceed.
    pub fn quarantine_size(&self) -> (r: usize)
        ensures
            r == self.quarantine_limit(),
    {
        self.quarantine.capacity()
    }

    /// The raw allocator.
    pub fn backend(&self) -> (r: &B)
        ensures
            *r == self.backend_of(),
            self.wf() ==> r.wf(),
    {
        &self.backend
    }

    /// The shadow.
    pub fn shadow(&self) -> (r: &S)
        ensures
            *r == self.shadow_of(),
            self.wf() ==> r.wf(),
    {
        &self.shadow
    }

    /// The tracker.
    pub fn tracking(&self) -> (r: &T)
        ensures
            *r == self.tracker_of(),
            self.wf() ==> r.wf(),
    {
        &self.tracking
    }

    /// The quarantine.
    pub fn quarantine(&self) -> (r: &Quarantine)
        ensures
            r@ == self.quarantined(),
            r.limit() == self.quarantine_limit(),
            self.wf() ==> r.wf(),
    {
        &self.quarantine
    }

    /// The record of the live allocation at `addr`, if there is one.
    pub fn record(&self, addr: GuestAddr) -> (r: Option<AllocationRecord>)
        ensures
            match r {
                Some(record) => self.records().contains_key(addr) && record
                    == self.records()[addr],
                None => !self.records().contains_key(addr),
            },
    {
        match self.allocations.get(&addr) {
            Some(record) => Some(*record),
            None => None,
        }
    }

    /// Allocates `len` bytes at a multiple of `align`, between two poisoned
    /// redzones.
    ///
    /// The request fails with `OutOfMemory` when its block does not fit in
    /// the address space or the raw allocator cannot serve it, and with the
    /// tracker's error when the tracker refuses the new allocation. A failed
    /// request leaves the records, the quarantine, the shadow and the
    /// tracker as they were; the block that the tracker refused goes back to
    /// the raw allocator.
    pub fn allocate(&mut self, len: usize, align: usize) -> (r: Result<
        GuestAddr,
        FrontendError<T::Error>,
    >)
        requires
            old(self).wf(),
            align > 0,
        ensures
            final(self).wf(),
            final(self).same_config(old(self)),
            old(self).consistent() ==> final(self).consistent(),
            old(self).tracks_own() ==> final(self).tracks_own(),
            old(self).tracks_own() && old(self).tracks_in_pairs()
                ==> final(self).tracks_in_pairs(),
            r matches Ok(addr) ==> {
                let rec = final(self).records()[addr];
                &&& addr as int % align as int == 0
                &&& addr == old(self).next_base(len as int, align as int)
                &&& !old(self).records().contains_key(addr)
                &&& old(self).tracks_own() ==> !old(self).live_ranges().contains_key(addr)
                &&& guarded(final(self).shadow_view(), rec)
                &&& final(self).records() == old(self).records().insert(addr, rec)
                &&& rec.base == addr
                &&& rec.requested_size == len
                &&& rec.alignment == align
                &&& rec.state == AllocationState::Allocated
                &&& rec.laid_out(old(self).redzone())
                &&& rec.block == old(self).backend_of().next_block(rec.block_size as int)
                &&& !old(self).blocks().contains_key(rec.block as int)
                &&& final(self).blocks() == old(self).blocks().insert(
                    rec.block as int,
                    rec.block_size as int,
                )
                &&& final(self).shadow_view() == paint(
                    paint(
                        old(self).shadow_view(),
                        rec.block as int,
                        rec.block_size as int,
                        ByteState::Poisoned,
                    ),
                    addr as int,
                    len as int,
                    ByteState::Addressable,
                )
                &&& final(self).notices() == old(self).notices().push(
                    Notice::Begin { start: addr, len },
                )
                &&& final(self).live_ranges() == old(self).live_ranges().insert(addr, len)
                &&& final(self).quarantined() == old(self).quarantined()
                &&& old(self).backend_of().serves(rec.block_size as int, &final(self).backend_of())
            },
            r matches Err(e) ==> {
                let size = block_size_of(len as int, align as int, old(self).redzone());
                &&& final(self).same_state(old(self))
                &&& e is OutOfMemory || e is Tracking
                &&& e is OutOfMemory <==> size > usize::MAX || !old(self).can_serve(size)
                &&& e is OutOfMemory ==> if size > usize::MAX {
                    final(self).backend_of() == old(self).backend_of()
                } else {
                    old(self).backend_of().serves(size, &final(self).backend_of())
                }
                &&& e is Tracking ==> old(self).tracker_of().may_refuse_track(
                    old(self).next_base(len as int, align as int) as usize,
                    len,
                )
                &&& e is Tracking ==> exists|mid: B| #[trigger]
                    old(self).backend_of().serves(size, &mid) && mid.takes_back(
                        old(self).backend_of().next_block(size),
                        size,
                        &final(self).backend_of(),
                    )
            },
    {
        let sizes = match plan(len, align, self.redzone) {
            Some(sizes) => sizes,
            None => {
                return Err(FrontendError::OutOfMemory);
            },
        };
        let block = match self.backend.allocate(sizes.block_size) {
            Some(block) => block,
            None => {
                assert(self.live_ranges() == old(self).live_ranges());
                return Err(FrontendError::OutOfMemory);
            },
        };
        proof {
            self.backend.lemma_blocks();
            self.shadow.lemma_region();
            assert(self.backend.blocks().contains_key(block as int));
        }
        let record = place(block, len, align, self.redzone, sizes);
        proof {
            record.lemma_laid_out(self.redzone as int);
        }
        match self.tracking.track(record.base, len) {
            Ok(()) => {},
            Err(e) => {
                let ghost mid = self.backend;
                self.backend.dealloc(block, sizes.block_size);
                assert(old(self).backend.serves(sizes.block_size as int, &mid) && mid.takes_back(
                    block as int,
                    sizes.block_size as int,
                    &self.backend,
                ));
                assert(self.backend.blocks() =~= old(self).backend.blocks());
                assert(self.live_ranges() == old(self).live_ranges());
                return Err(FrontendError::Tracking(e));
            },
        }
        let poisoned = self.shadow.poison(block, sizes.block_size);
        assert(poisoned is Ok);
        let opened = self.shadow.unpoison(record.base, len);
        assert(opened is Ok);
        proof {
            lemma_live_after_push(
                old(self).tracking.notices(),
                Notice::Begin { start: record.base, len },
            );
            lemma_book_allocate(
                old(self).backend.blocks(),
                old(self).allocations@,
                old(self).quarantine@,
                self.redzone as int,
                record,
                self.backend.lo(),
                self.backend.hi(),
            );
        }
        let _ = self.allocations.insert(record.base, record);
        proof {
            if old(self).consistent() {
                lemma_agree_allocate(
                    old(self).shadow@,
                    live_after(old(self).tracking.notices()),
                    self.backend.blocks(),
                    old(self).allocations@,
                    old(self).quarantine@,
                    self.redzone as int,
                    record,
                    self.backend.lo(),
                    self.backend.hi(),
                );
            }
        }
        Ok(record.base)
    }

    /// Hands the blocks of `evicted` back to the raw allocator, oldest
    /// first, and resets their shadow.
    fn release(&mut self, evicted: &Vec<AllocationRecord>, Ghost(agreed): Ghost<bool>)
        requires
            old(self).backend.wf(),
            old(self).shadow.wf(),
            old(self).tracking.wf(),
            old(self).quarantine.wf(),
            old(self).shadow.lo() <= old(self).backend.lo(),
            old(self).backend.hi() <= old(self).shadow.hi(),
            bookkeeping(
                old(self).backend.blocks(),
                old(self).allocations@,
                evicted@ + old(self).quarantine@,
                old(self).redzone as int,
            ),
            agreed ==> agreement(
                old(self).shadow@,
                live_after(old(self).tracking.notices()),
                old(self).allocations@,
                evicted@ + old(self).quarantine@,
            ),
        ensures
            final(self).wf(),
            final(self).same_config(old(self)),
            final(self).records() == old(self).records(),
            final(self).quarantined() == old(self).quarantined(),
            final(self).notices() == old(self).notices(),
            final(self).shadow_view() == released(old(self).shadow_view(), evicted@),
            final(self).blocks() == returned(old(self).blocks(), evicted@),
            handed_back(old(self).backend_of(), evicted@, final(self).backend_of()),
            agreed ==> final(self).consistent(),
    {
        let mut i: usize = 0;
        assert(evicted@.skip(0) =~= evicted@);
        assert(evicted@.subrange(0, 0) =~= Seq::<AllocationRecord>::empty());
        while i < evicted.len()
            invariant
                i <= evicted@.len(),
                self.backend.wf(),
                self.shadow.wf(),
                self.tracking.wf(),
                self.quarantine.wf(),
                self.shadow.lo() <= self.backend.lo(),
                self.backend.hi() <= self.shadow.hi(),
                self.shadow.lo() == old(self).shadow.lo(),
                self.shadow.hi() == old(self).shadow.hi(),
                self.backend.lo() == old(self).backend.lo(),
                self.backend.hi() == old(self).backend.hi(),
                self.redzone == old(self).redzone,
                self.quarantine == old(self).quarantine,
                self.allocations == old(self).allocations,
                self.tracking == old(self).tracking,
                bookkeeping(
                    self.backend.blocks(),
                    self.allocations@,
                    evicted@.skip(i as int) + self.quarantine@,
                    self.redzone as int,
                ),
                agreed ==> agreement(
                    self.shadow@,
                    live_after(self.tracking.notices()),
                    self.allocations@,
                    evicted@.skip(i as int) + self.quarantine@,
                ),
                self.shadow@ == released(old(self).shadow@, evicted@.subrange(0, i as int)),
                self.backend.blocks() == returned(
                    old(self).backend.blocks(),
                    evicted@.subrange(0, i as int),
                ),
                handed_back(old(self).backend, evicted@.subrange(0, i as int), self.backend),
            decreases evicted@.len() - i,
        {
            let entry = evicted[i];
            let ghost mid = self.backend;
            let ghost pending = evicted@.skip(i as int) + self.quarantine@;
            let ghost blocks = self.backend.blocks();
            let ghost m = self.shadow@;
            proof {
                self.backend.lemma_blocks();
                self.shadow.lemma_region();
                assert(pending[0] == entry);
            }
            self.backend.dealloc(entry.block, entry.block_size);
            let cleared = self.shadow.reset(entry.block, entry.block_size);
            assert(cleared is Ok);
            proof {
                lemma_book_evict(blocks, self.allocations@, pending, self.redzone as int);
                if agreed {
                    lemma_agree_evict(
                        m,
                        live_after(self.tracking.notices()),
                        blocks,
                        self.allocations@,
                        pending,
                        self.redzone as int,
                        self.backend.lo(),
                        self.backend.hi(),
                    );
                }
                assert(pending.skip(1) =~= evicted@.skip(i + 1) + self.quarantine@);
                let done = evicted@.subrange(0, i + 1);
                assert(done.drop_last() =~= evicted@.subrange(0, i as int));
                assert(mid.takes_back(
                    done.last().block as int,
                    done.last().block_size as int,
                    &self.backend,
                ));
            }
            i = i + 1;
        }
        assert(evicted@.subrange(0, i as int) =~= evicted@);
    }

    /// Frees the live allocation at `addr`: its whole block is poisoned and
    /// waits in the quarantine, from which the oldest records leave until
    /// the occupancy is within the capacity. The block of every record that
    /// leaves goes back to the raw allocator, and its shadow is reset.
    ///
    /// The request fails with `InvalidFree` when no live allocation has the
    /// base `addr`, and with the tracker's error when the tracker refuses to
    /// let the allocation go. A failed request changes nothing.
    pub fn dealloc(&mut self, addr: GuestAddr) -> (r: Result<(), FrontendError<T::Error>>)
        requires
            old(self).wf(),
        ensures
            final(self).wf(),
            final(self).same_config(old(self)),
            old(self).consistent() ==> final(self).consistent(),
            old(self).tracks_own() ==> final(self).tracks_own(),
            old(self).consistent() && old(self).tracks_in_pairs()
                ==> final(self).tracks_in_pairs(),
            !old(self).records().contains_key(addr) ==> r == Err::<(), FrontendError<T::Error>>(
                FrontendError::InvalidFree,
            ),
            r is Ok ==> old(self).records().contains_key(addr),
            r is Ok ==> {
                let rec = old(self).records()[addr];
                let all = old(self).quarantined().push(quarantined_form(rec));
                let k = evict_count(all, old(self).quarantine_limit()) as int;
                &&& final(self).records() == old(self).records().remove(addr)
                &&& final(self).quarantined() == all.skip(k)
                &&& final(self).notices() == old(self).notices().push(Notice::End { start: addr })
                &&& final(self).live_ranges() == old(self).live_ranges().remove(addr)
                &&& final(self).shadow_view() == released(
                    paint(
                        old(self).shadow_view(),
                        rec.block as int,
                        rec.block_size as int,
                        ByteState::Poisoned,
                    ),
                    all.subrange(0, k),
                )
                &&& final(self).blocks() == returned(old(self).blocks(), all.subrange(0, k))
                &&& handed_back(
                    old(self).backend_of(),
                    all.subrange(0, k),
                    final(self).backend_of(),
                )
                &&& none_addressable(
                    final(self).shadow_view(),
                    rec.block as int,
                    rec.block_size as int,
                )
                &&& rec.requested_size > 0 ==> any_poison(
                    final(self).shadow_view(),
                    addr as int,
                    rec.requested_size as int,
                )
            },
            r matches Err(e) ==> {
                &&& final(self).same_state(old(self))
                &&& e is InvalidFree || e is Tracking
                &&& final(self).backend_of() == old(self).backend_of()
                &&& e is InvalidFree <==> !old(self).records().contains_key(addr)
                &&& e is Tracking ==> old(self).tracker_of().may_refuse_untrack(addr)
            },
    {
        let record = match self.allocations.get(&addr) {
            Some(record) => *record,
            None => {
                return Err(FrontendError::InvalidFree);
            },
        };
        match self.tracking.untrack(addr) {
            Ok(()) => {},
            Err(e) => {
                assert(self.live_ranges() == old(self).live_ranges());
                return Err(FrontendError::Tracking(e));
            },
        }
        proof {
            lemma_live_after_push(old(self).tracking.notices(), Notice::End { start: addr });
            self.backend.lemma_blocks();
            self.shadow.lemma_region();
        }
        let _ = self.allocations.remove(&addr);
        let poisoned = self.shadow.poison(record.block, record.block_size);
        assert(poisoned is Ok);
        let entry = AllocationRecord {
            base: record.base,
            requested_size: record.requested_size,
            alignment: record.alignment,
            total_size: record.total_size,
            state: AllocationState::Quarantined,
            block: record.block,
            block_size: record.block_size,
        };
        let ghost agreed = old(self).consistent();
        proof {
            lemma_book_quarantine(
                self.backend.blocks(),
                old(self).allocations@,
                old(self).quarantine@,
                self.redzone as int,
                addr,
            );
            if agreed {
                lemma_agree_quarantine(
                    old(self).shadow@,
                    live_after(old(self).tracking.notices()),
                    self.backend.blocks(),
                    old(self).allocations@,
                    old(self).quarantine@,
                    self.redzone as int,
                    addr,
                    self.backend.lo(),
                    self.backend.hi(),
                );
            }
        }
        let evicted = self.quarantine.push(entry);
        let ghost painted = self.shadow@;
        self.release(&evicted, Ghost(agreed));
        proof {
            record.lemma_laid_out(self.redzone as int);
            assert forall|x: int| record.block <= x < record.block + record.block_size implies (
            #[trigger] self.shadow@[x]) != ByteState::Addressable by {
                lemma_released(painted, evicted@, x);
            }
            if record.requested_size > 0 {
                assert(self.shadow@[addr as int] != ByteState::Addressable);
            }
        }
        Ok(())
    }

    /// Empties the quarantine: the block of every quarantined record goes
    /// back to the raw allocator, oldest first, and its shadow is reset.
    pub fn purge(&mut self)
        requires
            old(self).wf(),
        ensures
            final(self).wf(),
            final(self).same_config(old(self)),
            old(self).consistent() ==> final(self).consistent(),
            final(self).records() == old(self).records(),
            final(self).quarantined() == Seq::<AllocationRecord>::empty(),
            final(self).notices() == old(self).notices(),
            final(self).shadow_view() == released(old(self).shadow_view(), old(self).quarantined()),
            final(self).blocks() == returned(old(self).blocks(), old(self).quarantined()),
            handed_back(old(self).backend_of(), old(self).quarantined(), final(self).backend_of()),
    {
        let ghost agreed = old(self).consistent();
        let evicted = self.quarantine.drain();
        self.release(&evicted, Ghost(agreed));
    }

    /// Poisons `[addr, addr + len)` in the shadow, whatever the records say
    /// of it. Refused when the range is not empty and leaves the region that
    /// the shadow tracks.
    pub fn poison(&mut self, addr: GuestAddr, len: usize) -> (r: Result<
        (),
        FrontendError<T::Error>,
    >)
        requires
            old(self).wf(),
        ensures
            final(self).wf(),
            final(self).same_config(old(self)),
            final(self).records() == old(self).records(),
            final(self).quarantined() == old(self).quarantined(),
            final(self).notices() == old(self).notices(),
            final(self).backend_of() == old(self).backend_of(),
            r is Ok <==> range_tracked(
                old(self).shadow_lo(),
                old(self).shadow_hi(),
                addr as int,
                len as int,
            ),
            r is Ok ==> final(self).shadow_view() == paint(
                old(self).shadow_view(),
                addr as int,
                len as int,
                ByteState::Poisoned,
            ),
            r matches Err(e) ==> e == FrontendError::<T::Error>::Shadow(ShadowError::OutOfRange)
                && final(self).shadow_view() == old(self).shadow_view(),
            old(self).consistent() && misses_all(old(self).blocks(), addr as int, len as int)
                ==> final(self).consistent(),
    {
        proof {
            self.lemma_foreign_paint(addr as int, len as int, ByteState::Poisoned);
        }
        match self.shadow.poison(addr, len) {
            Ok(()) => Ok(()),
            Err(_) => Err(FrontendError::Shadow(ShadowError::OutOfRange)),
        }
    }

    /// Makes `[addr, addr + len)` addressable in the shadow, whatever the
    /// records say of it. Refused when the range is not empty and leaves the
    /// region that the shadow tracks.
    pub fn unpoison(&mut self, addr: GuestAddr, len: usize) -> (r: Result<
        (),
        FrontendError<T::Error>,
    >)
        requires
            old(self).wf(),
        ensures
            final(self).wf(),
            final(self).same_config(old(self)),
            final(self).records() == old(self).records(),
            final(self).quarantined() == old(self).quarantined(),
            final(self).notices() == old(self).notices(),
            final(self).backend_of() == old(self).backend_of(),
            r is Ok <==> range_tracked(
                old(self).shadow_lo(),
                old(self).shadow_hi(),
                addr as int,
                len as int,
            ),
            r is Ok ==> final(self).shadow_view() == paint(
                old(self).shadow_view(),
                addr as int,
                len as int,
                ByteState::Addressable,
            ),
            r matches Err(e) ==> e == FrontendError::<T::Error>::Shadow(ShadowError::OutOfRange)
                && final(self).shadow_view() == old(self).shadow_view(),
            old(self).consistent() && misses_all(old(self).blocks(), addr as int, len as int)
                ==> final(self).consistent(),
    {
        proof {
            self.lemma_foreign_paint(addr as int, len as int, ByteState::Addressable);
        }
        match self.shadow.unpoison(addr, len) {
            Ok(()) => Ok(()),
            Err(_) => Err(FrontendError::Shadow(ShadowError::OutOfRange)),
        }
    }

    /// Whether any byte of `[addr, addr + len)` is poisoned or
    /// unaddressable. Refused when the range is not empty and leaves the
    /// region that the shadow tracks.
    pub fn is_poison(&self, addr: GuestAddr, len: usize) -> (r: Result<
        bool,
        FrontendError<T::Error>,
    >)
        requires
            self.wf(),
        ensures
            r is Ok <==> range_tracked(self.shadow_lo(), self.shadow_hi(), addr as int, len as int),
            r matches Ok(b) ==> b == any_poison(self.shadow_view(), addr as int, len as int),
            r matches Err(e) ==> e == FrontendError::<T::Error>::Shadow(ShadowError::OutOfRange),
    {
        match self.shadow.is_poison(addr, len) {
            Ok(b) => Ok(b),
            Err(_) => Err(FrontendError::Shadow(ShadowError::OutOfRange)),
        }
    }

    /// Tells the tracker of an allocation that the front end did not make.
    /// The records and the shadow stay as they are.
    pub fn track(&mut self, addr: GuestAddr, len: usize) -> (r: Result<
        (),
        FrontendError<T::Error>,
    >)
        requires
            old(self).wf(),
            addr + len <= usize::MAX,
        ensures
            final(self).wf(),
            final(self).same_config(old(self)),
            final(self).records() == old(self).records(),
            final(self).quarantined() == old(self).quarantined(),
            final(self).shadow_view() == old(self).shadow_view(),
            final(self).backend_of() == old(self).backend_of(),
            r is Ok ==> final(self).notices() == old(self).notices().push(
                Notice::Begin { start: addr, len },
            ),
            r is Ok ==> final(self).live_ranges() == old(self).live_ranges().insert(addr, len),
            r matches Err(e) ==> {
                &&& e is Tracking
                &&& final(self).notices() == old(self).notices()
                &&& old(self).tracker_of().may_refuse_track(addr, len)
            },
            old(self).consistent() && !old(self).records().contains_key(addr)
                ==> final(self).consistent(),
    {
        proof {
            lemma_live_after_push(self.tracking.notices(), Notice::Begin { start: addr, len });
        }
        match self.tracking.track(addr, len) {
            Ok(()) => Ok(()),
            Err(e) => Err(FrontendError::Tracking(e)),
        }
    }

    /// Tells the tracker that an allocation that the front end did not make
    /// is gone. The records and the shadow stay as they are.
    pub fn untrack(&mut self, addr: GuestAddr) -> (r: Result<(), FrontendError<T::Error>>)
        requires
            old(self).wf(),
        ensures
            final(self).wf(),
            final(self).same_config(old(self)),
            final(self).records() == old(self).records(),
            final(self).quarantined() == old(self).quarantined(),
            final(self).shadow_view() == old(self).shadow_view(),
            final(self).backend_of() == old(self).backend_of(),
            r is Ok ==> final(self).notices() == old(self).notices().push(
                Notice::End { start: addr },
            ),
            r is Ok ==> final(self).live_ranges() == old(self).live_ranges().remove(addr),
            r matches Err(e) ==> {
                &&& e is Tracking
                &&& final(self).notices() == old(self).notices()
                &&& old(self).tracker_of().may_refuse_untrack(addr)
            },
            old(self).consistent() && !old(self).records().contains_key(addr)
                ==> final(self).consistent(),
    {
        proof {
            lemma_live_after_push(self.tracking.notices(), Notice::End { start: addr });
        }
        match self.tracking.untrack(addr) {
            Ok(()) => Ok(()),
            Err(e) => Err(FrontendError::Tracking(e)),
        }
    }

    /// The parts of a well-formed front end are well-formed, and the shadow
    /// covers the pool of the raw allocator.
    pub proof fn lemma_parts(&self)
        requires
            self.wf(),
        ensures
            self.backend_of().wf(),
            self.shadow_of().wf(),
            self.tracker_of().wf(),
            self.redzone() >= 0,
            self.quarantine_limit() >= 0,
            self.shadow_lo() <= self.backend_of().lo(),
            self.backend_of().hi() <= self.shadow_hi(),
    {
        self.quarantine.lemma_bounded();
    }

    /// The base that the next allocation would get is the base of no live
    /// allocation; and a tracker that holds nothing but the live allocations
    /// does not hold it.
    pub proof fn lemma_next_base_fresh(&self, len: usize, align: usize)
        requires
            self.wf(),
            align > 0,
            block_size_of(len as int, align as int, self.redzone()) <= usize::MAX,
            self.can_serve(block_size_of(len as int, align as int, self.redzone())),
        ensures
            0 <= self.next_base(len as int, align as int) <= usize::MAX,
            !self.records().contains_key(self.next_base(len as int, align as int) as usize),
            self.tracks_own() ==> !self.live_ranges().contains_key(
                self.next_base(len as int, align as int) as usize,
            ),
    {
        let size = block_size_of(len as int, align as int, self.redzone as int);
        let block = self.backend.next_block(size);
        lemma_align_up(len as int, align as int);
        lemma_align_up(block + self.redzone, align as int);
        self.backend.lemma_blocks();
        self.backend.lemma_next_block(size);
        let after = self.backend.blocks().insert(block, size);
        assert(after.contains_key(block));
        let rec = AllocationRecord {
            base: self.next_base(len as int, align as int) as usize,
            requested_size: len,
            alignment: align,
            total_size: (size - align) as usize,
            state: AllocationState::Allocated,
            block: block as usize,
            block_size: size as usize,
        };
        lemma_book_allocate(
            self.backend.blocks(),
            self.allocations@,
            self.quarantine@,
            self.redzone as int,
            rec,
            self.backend.lo(),
            self.backend.hi(),
        );
    }

    /// Redzones hold for every live allocation: while the shadow agrees
    /// with the records, the base of a live allocation is aligned, the
    /// redzone before it and the redzone after its body are poisoned, no byte
    /// of its body is, and the tracker holds it with its length.
    pub proof fn lemma_live_allocation(&self, addr: GuestAddr)
        requires
            self.wf(),
            self.consistent(),
            self.records().contains_key(addr),
        ensures
            ({
                let rec = self.records()[addr];
                let m = self.shadow_view();
                &&& rec.base == addr
                &&& rec.state == AllocationState::Allocated
                &&& rec.laid_out(self.redzone())
                &&& addr as int % rec.alignment as int == 0
                &&& all_in_state(m, addr - self.redzone(), self.redzone(), ByteState::Poisoned)
                &&& all_in_state(m, rec.body_end(), self.redzone(), ByteState::Poisoned)
                &&& !any_poison(m, addr as int, rec.requested_size as int)
                &&& self.redzone() > 0 ==> any_poison(m, addr - self.redzone(), self.redzone())
                    && any_poison(m, rec.body_end(), self.redzone())
                &&& self.live_ranges().contains_key(addr)
                &&& self.live_ranges()[addr] == rec.requested_size
            }),
    {
        let rec = self.allocations@[addr];
        let m = self.shadow@;
        rec.lemma_laid_out(self.redzone as int);
        if self.redzone > 0 {
            assert(m[addr - self.redzone] == ByteState::Poisoned);
            assert(m[rec.body_end()] == ByteState::Poisoned);
        }
    }

    /// No two live allocations overlap: neither their blocks nor, within
    /// them, their bodies.
    pub proof fn lemma_allocations_disjoint(&self, a: GuestAddr, b: GuestAddr)
        requires
            self.wf(),
            self.records().contains_key(a),
            self.records().contains_key(b),
            a != b,
        ensures
            !overlap(
                self.records()[a].block as int,
                self.records()[a].block_size as int,
                self.records()[b].block as int,
                self.records()[b].block_size as int,
            ),
            !overlap(
                a as int,
                self.records()[a].requested_size as int,
                b as int,
                self.records()[b].requested_size as int,
            ),
    {
        let ra = self.allocations@[a];
        let rb = self.allocations@[b];
        self.backend.lemma_blocks();
        ra.lemma_laid_out(self.redzone as int);
        rb.lemma_laid_out(self.redzone as int);
    }

    /// A freed allocation stays poisoned while it waits in the quarantine:
    /// while the shadow agrees with the records, no byte of the block of a
    /// quarantined record is addressable, so that a check of its body, where
    /// that is not empty, reports poison.
    pub proof fn lemma_quarantined_poisoned(&self, i: int)
        requires
            self.wf(),
            self.consistent(),
            0 <= i < self.quarantined().len(),
        ensures
            ({
                let q = self.quarantined()[i];
                let m = self.shadow_view();
                &&& q.state == AllocationState::Quarantined
                &&& all_in_state(m, q.block as int, q.block_size as int, ByteState::Poisoned)
                &&& none_addressable(m, q.block as int, q.block_size as int)
                &&& q.requested_size > 0 ==> any_poison(
                    m,
                    q.base as int,
                    q.requested_size as int,
                )
                &&& forall|at: int, width: int|
                    q.block <= at && at + width <= q.block_end() && width > 0
                        ==> #[trigger] any_poison(m, at, width)
            }),
    {
        let q = self.quarantine@[i];
        let m = self.shadow@;
        q.lemma_laid_out(self.redzone as int);
        if q.requested_size > 0 {
            assert(m[q.base as int] == ByteState::Poisoned);
        }
        assert forall|at: int, width: int|
            q.block <= at && at + width <= q.block_end() && width > 0
            implies #[trigger] any_poison(m, at, width) by {
            lemma_window_poisoned(m, q.block as int, q.block_size as int, at, width);
        }
    }

    /// The occupancy of the quarantine never exceeds its capacity.
    pub proof fn lemma_quarantine_bounded(&self)
        requires
            self.wf(),
        ensures
            0 <= occupancy(self.quarantined()) <= self.quarantine_limit(),
    {
        self.quarantine.lemma_bounded();
    }

    /// Tracking goes with the life of an allocation: while the tracker
    /// agrees with the records and holds nothing else, it holds an address
    /// exactly when a live allocation has that base.
    pub proof fn lemma_tracking_paired(&self, addr: GuestAddr)
        requires
            self.wf(),
            self.consistent(),
            self.tracks_own(),
        ensures
            self.live_ranges().contains_key(addr) <==> self.records().contains_key(addr),
    {
    }

    /// Painting a range that misses every block keeps the shadow in
    /// agreement with the records.
    proof fn lemma_foreign_paint(&self, addr: int, len: int, s: ByteState)
        requires
            self.wf(),
        ensures
            self.consistent() && misses_all(self.blocks(), addr, len) ==> agreement(
                paint(self.shadow_view(), addr, len, s),
                self.live_ranges(),
                self.records(),
                self.quarantined(),
            ),
    {
        if self.consistent() && misses_all(self.blocks(), addr, len) {
            self.backend.lemma_blocks();
            self.shadow.lemma_region();
            let m = self.shadow@;
            let n = paint(m, addr, len, s);
            let blocks = self.backend.blocks();
            assert forall|a: GuestAddr| #[trigger]
                self.allocations@.contains_key(a) implies guarded(n, self.allocations@[a]) by {
                let r = self.allocations@[a];
                lemma_paint_misses(m, addr, len, s, r, self.redzone as int);
            }
            assert forall|i: int| 0 <= i < self.quarantine@.len() implies all_in_state(
                n,
                (#[trigger] self.quarantine@[i]).block as int,
                self.quarantine@[i].block_size as int,
                ByteState::Poisoned,
            ) by {
                let r = self.quarantine@[i];
                lemma_paint_misses(m, addr, len, s, r, self.redzone as int);
            }
        }
    }

    /// The requested length of the live allocation at `addr`, or
    /// `InvalidAddress` when no live allocation has that base.
    pub fn get_size(&self, addr: GuestAddr) -> (r: Result<usize, FrontendError<T::Error>>)
        ensures
            match r {
                Ok(len) => self.records().contains_key(addr) && len
                    == self.records()[addr].requested_size,
                Err(e) => !self.records().contains_key(addr) && e is InvalidAddress,
            },
    {
        match self.allocations.get(&addr) {
            Some(record) => Ok(record.requested_size),
            None => Err(FrontendError::InvalidAddress),
        }
    }
}

} // verus!

//! What the front end keeps true of its records, and why its operations
//! keep it true.
//!
//! Everything here speaks of plain values: the blocks of the raw allocator,
//! the live records, the quarantine, the shadow state and the tracked
//! ranges.

use vstd::prelude::*;

use crate::allocator::backend::{blocks_valid, overlap};
use crate::allocator::record::{AllocationRecord, AllocationState};
use crate::layout::GuestAddr;
use crate::shadow::{all_in_state, paint, ByteState};

verus! {

/// The record `r` as it enters the quarantine.
pub open spec fn quarantined_form(r: AllocationRecord) -> AllocationRecord {
    AllocationRecord { state: AllocationState::Quarantined, ..r }
}

/// Whether `r` is laid out with redzones of `redzone` bytes in a block that
/// `blocks` holds with its size.
pub open spec fn backed(blocks: Map<int, int>, r: AllocationRecord, redzone: int) -> bool {
    &&& r.laid_out(redzone)
    &&& blocks.contains_key(r.block as int)
    &&& blocks[r.block as int] == r.block_size
}

/// The bookkeeping invariant of the front end: every live record is keyed by
/// its base, and every live and every quarantined record is backed by a
/// block of its own.
pub open spec fn bookkeeping(
    blocks: Map<int, int>,
    records: Map<GuestAddr, AllocationRecord>,
    quarantined: Seq<AllocationRecord>,
    redzone: int,
) -> bool {
    &&& forall|a: GuestAddr| #[trigger]
        records.contains_key(a) ==> records[a].base == a && records[a].state
            == AllocationState::Allocated && backed(blocks, records[a], redzone)
    &&& forall|i: int|
        0 <= i < quarantined.len() ==> (#[trigger] quarantined[i]).state
            == AllocationState::Quarantined && backed(blocks, quarantined[i], redzone)
    &&& forall|a: GuestAddr, b: GuestAddr|
        #![trigger records.contains_key(a), records.contains_key(b)]
        records.contains_key(a) && records.contains_key(b) && a != b ==> records[a].block
            != records[b].block
    &&& forall|i: int, j: int|
        #![trigger quarantined[i], quarantined[j]]
        0 <= i < j < quarantined.len() ==> quarantined[i].block != quarantined[j].block
    &&& forall|a: GuestAddr, i: int|
        #![trigger records.contains_key(a), quarantined[i]]
        records.contains_key(a) && 0 <= i < quarantined.len() ==> records[a].block
            != quarantined[i].block
}

/// Whether the shadow `m` guards the live record `r`: poison from the start
/// of its block to its body, an addressable body, and poison from the end of
/// the body to the end of the block.
pub open spec fn guarded(m: Map<int, ByteState>, r: AllocationRecord) -> bool {
    &&& all_in_state(m, r.block as int, r.base - r.block, ByteState::Poisoned)
    &&& all_in_state(m, r.base as int, r.requested_size as int, ByteState::Addressable)
    &&& all_in_state(m, r.body_end(), r.block_end() - r.body_end(), ByteState::Poisoned)
}

/// Whether the shadow and the tracker agree with the records: every live
/// record is guarded and known to the tracker with its length, and the whole
/// block of every quarantined record is poisoned.
pub open spec fn agreement(
    m: Map<int, ByteState>,
    live: Map<GuestAddr, usize>,
    records: Map<GuestAddr, AllocationRecord>,
    quarantined: Seq<AllocationRecord>,
) -> bool {
    &&& forall|a: GuestAddr| #[trigger]
        records.contains_key(a) ==> guarded(m, records[a]) && live.contains_key(a)
            && live[a] == records[a].requested_size
    &&& forall|i: int|
        0 <= i < quarantined.len() ==> all_in_state(
            m,
            (#[trigger] quarantined[i]).block as int,
            quarantined[i].block_size as int,
            ByteState::Poisoned,
        )
}

/// Whether `[addr, addr + len)` misses every block of `blocks`.
pub open spec fn misses_all(blocks: Map<int, int>, addr: int, len: int) -> bool {
    forall|b: int| #[trigger] blocks.contains_key(b) ==> !overlap(addr, len, b, blocks[b])
}

/// The shadow `m` after the block of every record of `s` was reset.
pub open spec fn released(m: Map<int, ByteState>, s: Seq<AllocationRecord>) -> Map<int, ByteState>
    decreases s.len(),
{
    if s.len() == 0 {
        m
    } else {
        paint(
            released(m, s.drop_last()),
            s.last().block as int,
            s.last().block_size as int,
            ByteState::Unaddressable,
        )
    }
}

/// The blocks `blocks` without the block of any record of `s`.
pub open spec fn returned(blocks: Map<int, int>, s: Seq<AllocationRecord>) -> Map<int, int>
    decreases s.len(),
{
    if s.len() == 0 {
        blocks
    } else {
        returned(blocks, s.drop_last()).remove(s.last().block as int)
    }
}

/// Releasing blocks makes no byte addressable, and leaves alone every byte
/// outside the blocks.
pub proof fn lemma_released(m: Map<int, ByteState>, s: Seq<AllocationRecord>, x: int)
    requires
        m.contains_key(x),
    ensures
        released(m, s).contains_key(x),
        released(m, s)[x] == m[x] || released(m, s)[x] == ByteState::Unaddressable,
        (forall|i: int|
            0 <= i < s.len() ==> !((#[trigger] s[i]).block <= x < s[i].block_end())) ==> released(
            m,
            s,
        )[x] == m[x],
        (exists|i: int| 0 <= i < s.len() && (#[trigger] s[i]).block <= x < s[i].block_end())
            ==> released(m, s)[x] == ByteState::Unaddressable,
    decreases s.len(),
{
    if s.len() > 0 {
        let front = s.drop_last();
        lemma_released(m, front, x);
        if exists|i: int| 0 <= i < s.len() && (#[trigger] s[i]).block <= x < s[i].block_end() {
            let i = choose|i: int|
                0 <= i < s.len() && (#[trigger] s[i]).block <= x < s[i].block_end();
            if i < front.len() {
                assert(front[i] == s[i]);
            }
        }
    }
}

/// Handing blocks back takes exactly them away from the blocks that are
/// handed out.
pub proof fn lemma_returned(blocks: Map<int, int>, s: Seq<AllocationRecord>, b: int)
    ensures
        returned(blocks, s).contains_key(b) <==> blocks.contains_key(b) && forall|i: int|
            0 <= i < s.len() ==> (#[trigger] s[i]).block != b,
        returned(blocks, s).contains_key(b) ==> returned(blocks, s)[b] == blocks[b],
    decreases s.len(),
{
    if s.len() > 0 {
        let front = s.drop_last();
        lemma_returned(blocks, front, b);
        if returned(blocks, s).contains_key(b) {
            assert forall|i: int| 0 <= i < s.len() implies (#[trigger] s[i]).block != b by {
                if i < front.len() {
                    assert(front[i] == s[i]);
                }
            }
        }
    }
}

/// Painting a range that misses a block leaves the shadow on the block as it
/// was.
pub proof fn lemma_paint_misses(
    m: Map<int, ByteState>,
    addr: int,
    len: int,
    s: ByteState,
    r: AllocationRecord,
    redzone: int,
)
    requires
        redzone >= 0,
        r.laid_out(redzone),
        !overlap(addr, len, r.block as int, r.block_size as int),
        forall|x: int| r.block <= x < r.block_end() ==> m.contains_key(x),
    ensures
        guarded(m, r) ==> guarded(paint(m, addr, len, s), r),
        all_in_state(m, r.block as int, r.block_size as int, ByteState::Poisoned) ==> all_in_state(
            paint(m, addr, len, s),
            r.block as int,
            r.block_size as int,
            ByteState::Poisoned,
        ),
{
    assert forall|x: int| r.block <= x < r.block_end() implies #[trigger] paint(m, addr, len, s)[x]
        == m[x] by {}
}

/// A new record on a block that the raw allocator did not hold has a base
/// that no live record has, and keeps the bookkeeping in order.
pub proof fn lemma_book_allocate(
    blocks: Map<int, int>,
    records: Map<GuestAddr, AllocationRecord>,
    quarantined: Seq<AllocationRecord>,
    redzone: int,
    rec: AllocationRecord,
    lo: int,
    hi: int,
)
    requires
        redzone >= 0,
        bookkeeping(blocks, records, quarantined, redzone),
        !blocks.contains_key(rec.block as int),
        rec.laid_out(redzone),
        rec.state == AllocationState::Allocated,
        blocks_valid(blocks.insert(rec.block as int, rec.block_size as int), lo, hi),
    ensures
        !records.contains_key(rec.base),
        bookkeeping(
            blocks.insert(rec.block as int, rec.block_size as int),
            records.insert(rec.base, rec),
            quarantined,
            redzone,
        ),
{
    let after = blocks.insert(rec.block as int, rec.block_size as int);
    if records.contains_key(rec.base) {
        let other = records[rec.base];
        assert(after.contains_key(other.block as int));
        assert(after.contains_key(rec.block as int));
    }
    assert(records.insert(rec.base, rec)[rec.base] == rec);
}

/// Moving a live record to the tail of the quarantine keeps the bookkeeping
/// in order.
pub proof fn lemma_book_quarantine(
    blocks: Map<int, int>,
    records: Map<GuestAddr, AllocationRecord>,
    quarantined: Seq<AllocationRecord>,
    redzone: int,
    addr: GuestAddr,
)
    requires
        bookkeeping(blocks, records, quarantined, redzone),
        records.contains_key(addr),
    ensures
        bookkeeping(
            blocks,
            records.remove(addr),
            quarantined.push(quarantined_form(records[addr])),
            redzone,
        ),
{
    let entry = quarantined_form(records[addr]);
    assert(quarantined.push(entry)[quarantined.len() as int] == entry);
    assert(!records.remove(addr).contains_key(addr));
}

/// Handing the block of the oldest quarantined record back to the raw
/// allocator keeps the bookkeeping in order.
pub proof fn lemma_book_evict(
    blocks: Map<int, int>,
    records: Map<GuestAddr, AllocationRecord>,
    quarantined: Seq<AllocationRecord>,
    redzone: int,
)
    requires
        bookkeeping(blocks, records, quarantined, redzone),
        quarantined.len() > 0,
    ensures
        bookkeeping(
            blocks.remove(quarantined[0].block as int),
            records,
            quarantined.skip(1),
            redzone,
        ),
{
    assert(!blocks.remove(quarantined[0].block as int).contains_key(quarantined[0].block as int));
    assert(quarantined.skip(1).len() == quarantined.len() - 1);
}

/// Guarding a new record on a fresh block leaves every other record as the
/// shadow and the tracker had it.
pub proof fn lemma_agree_allocate(
    m: Map<int, ByteState>,
    live: Map<GuestAddr, usize>,
    blocks: Map<int, int>,
    records: Map<GuestAddr, AllocationRecord>,
    quarantined: Seq<AllocationRecord>,
    redzone: int,
    rec: AllocationRecord,
    lo: int,
    hi: int,
)
    requires
        redzone >= 0,
        !records.contains_key(rec.base),
        bookkeeping(blocks, records.insert(rec.base, rec), quarantined, redzone),
        blocks_valid(blocks, lo, hi),
        forall|x: int| lo <= x < hi ==> m.contains_key(x),
        agreement(m, live, records, quarantined),
    ensures
        agreement(
            paint(
                paint(m, rec.block as int, rec.block_size as int, ByteState::Poisoned),
                rec.base as int,
                rec.requested_size as int,
                ByteState::Addressable,
            ),
            live.insert(rec.base, rec.requested_size),
            records.insert(rec.base, rec),
            quarantined,
        ),
{
    assert(records.insert(rec.base, rec).contains_key(rec.base));
}

/// Poisoning the block of a live record as it enters the quarantine leaves
/// every other record as the shadow and the tracker had it.
pub proof fn lemma_agree_quarantine(
    m: Map<int, ByteState>,
    live: Map<GuestAddr, usize>,
    blocks: Map<int, int>,
    records: Map<GuestAddr, AllocationRecord>,
    quarantined: Seq<AllocationRecord>,
    redzone: int,
    addr: GuestAddr,
    lo: int,
    hi: int,
)
    requires
        redzone >= 0,
        records.contains_key(addr),
        bookkeeping(blocks, records, quarantined, redzone),
        blocks_valid(blocks, lo, hi),
        forall|x: int| lo <= x < hi ==> m.contains_key(x),
        agreement(m, live, records, quarantined),
    ensures
        agreement(
            paint(
                m,
                records[addr].block as int,
                records[addr].block_size as int,
                ByteState::Poisoned,
            ),
            live.remove(addr),
            records.remove(addr),
            quarantined.push(quarantined_form(records[addr])),
        ),
{
    let entry = quarantined_form(records[addr]);
    assert(quarantined.push(entry)[quarantined.len() as int] == entry);
}

/// Resetting the block of the oldest quarantined record leaves every other
/// record as the shadow and the tracker had it.
pub proof fn lemma_agree_evict(
    m: Map<int, ByteState>,
    live: Map<GuestAddr, usize>,
    blocks: Map<int, int>,
    records: Map<GuestAddr, AllocationRecord>,
    quarantined: Seq<AllocationRecord>,
    redzone: int,
    lo: int,
    hi: int,
)
    requires
        redzone >= 0,
        quarantined.len() > 0,
        bookkeeping(blocks, records, quarantined, redzone),
        blocks_valid(blocks, lo, hi),
        forall|x: int| lo <= x < hi ==> m.contains_key(x),
        agreement(m, live, records, quarantined),
    ensures
        agreement(
            paint(
                m,
                quarantined[0].block as int,
                quarantined[0].block_size as int,
                ByteState::Unaddressable,
            ),
            live,
            records,
            quarantined.skip(1),
        ),
{
    assert(quarantined.skip(1).len() == quarantined.len() - 1);
}

} // verus!

//! Allocation records and the layout of an allocation inside its block.
//!
//! A block from the raw allocator holds, in this order: a leading redzone
//! (widened so that the body is aligned), the body, and a trailing redzone
//! (widened by what the body leaves of its last aligned unit and by what the
//! alignment did not use).

use vstd::prelude::*;

use crate::layout::{align_up, checked_align_up, lemma_align_up, GuestAddr};

verus! {

/// Where an allocation stands in its life.
#[derive(Clone, Copy, Debug, PartialEq, Eq, Structural)]
pub enum AllocationState {
    /// Handed to the program and not yet freed.
    Allocated,
    /// Freed, and held back from reuse.
    Quarantined,
}

/// What the front end keeps of one allocation.
#[derive(Clone, Copy, Debug, PartialEq, Eq, Structural)]
pub struct AllocationRecord {
    /// First byte of the body; the address the program holds.
    pub base: GuestAddr,
    /// Length of the body, as it was requested.
    pub requested_size: usize,
    /// Alignment of `base`, as it was requested.
    pub alignment: usize,
    /// The body rounded up to its alignment, and both redzones.
    pub total_size: usize,
    /// Allocated or quarantined.
    pub state: AllocationState,
    /// First byte of the block that the raw allocator handed out.
    pub block: GuestAddr,
    /// Length of that block: `total_size` and room to align the body.
    pub block_size: usize,
}

/// The size that an allocation is accounted with: the body rounded up to its
/// alignment, and a redzone on either side.
pub open spec fn total_size_of(len: int, align: int, redzone: int) -> int {
    align_up(len, align) + 2 * redzone
}

/// The size of the block that is requested from the raw allocator, which may
/// start at any byte: the accounted size and room to align the body.
pub open spec fn block_size_of(len: int, align: int, redzone: int) -> int {
    total_size_of(len, align, redzone) + align
}

/// The address of the body inside a block that starts at `block`.
pub open spec fn body_base(block: int, align: int, redzone: int) -> int {
    align_up(block + redzone, align)
}

impl AllocationRecord {
    /// Whether the record describes an allocation of `requested_size` bytes
    /// aligned to `alignment`, laid out with redzones of `redzone` bytes in
    /// the block `[block, block + block_size)`.
    pub open spec fn laid_out(self, redzone: int) -> bool {
        &&& self.alignment > 0
        &&& self.total_size == total_size_of(
            self.requested_size as int,
            self.alignment as int,
            redzone,
        )
        &&& self.block_size == self.total_size + self.alignment
        &&& self.base == body_base(self.block as int, self.alignment as int, redzone)
        &&& self.block + self.block_size <= usize::MAX
    }

    /// One past the last byte of the body.
    pub open spec fn body_end(self) -> int {
        self.base + self.requested_size
    }

    /// One past the last byte of the block.
    pub open spec fn block_end(self) -> int {
        self.block + self.block_size
    }

    /// In a laid-out record the body is aligned and lies in the block, with
    /// at least a redzone between it and either end of the block.
    pub proof fn lemma_laid_out(self, redzone: int)
        requires
            self.laid_out(redzone),
            redzone >= 0,
        ensures
            self.base as int % self.alignment as int == 0,
            self.block + redzone <= self.base,
            self.body_end() + redzone <= self.block_end(),
            self.block <= self.base < self.block_end(),
            self.block_size > 0,
    {
        lemma_align_up(self.block + redzone, self.alignment as int);
    }
}

/// The sizes of an allocation that is yet to be placed.
#[derive(Clone, Copy, Debug)]
pub struct Plan {
    /// The size that the allocation is accounted with.
    pub total_size: usize,
    /// The size of the block to request from the raw allocator.
    pub block_size: usize,
}

/// Sizes an allocation of `len` bytes aligned to `align` between redzones of
/// `redzone` bytes, or finds that its block would not fit in the address
/// space.
pub fn plan(len: usize, align: usize, redzone: usize) -> (r: Option<Plan>)
    requires
        align > 0,
    ensures
        r is Some <==> block_size_of(len as int, align as int, redzone as int) <= usize::MAX,
        r matches Some(p) ==> {
            &&& p.total_size == total_size_of(len as int, align as int, redzone as int)
            &&& p.block_size == block_size_of(len as int, align as int, redzone as int)
            &&& p.block_size > 0
        },
{
    let rounded = match checked_align_up(len, align) {
        Some(v) => v,
        None => {
            return None;
        },
    };
    let zones = match redzone.checked_add(redzone) {
        Some(v) => v,
        None => {
            return None;
        },
    };
    let total_size = match rounded.checked_add(zones) {
        Some(v) => v,
        None => {
            return None;
        },
    };
    match total_size.checked_add(align) {
        Some(block_size) => Some(Plan { total_size, block_size }),
        None => None,
    }
}

/// Places an allocation in the block that the raw allocator handed out.
pub fn place(block: GuestAddr, len: usize, align: usize, redzone: usize, sizes: Plan) -> (r:
    AllocationRecord)
    requires
        align > 0,
        sizes.total_size == total_size_of(len as int, align as int, redzone as int),
        sizes.block_size == block_size_of(len as int, align as int, redzone as int),
        block + sizes.block_size <= usize::MAX,
    ensures
        r.laid_out(redzone as int),
        r.block == block,
        r.requested_size == len,
        r.alignment == align,
        r.total_size == sizes.total_size,
        r.block_size == sizes.block_size,
        r.state == AllocationState::Allocated,
        r.base == body_base(block as int, align as int, redzone as int),
{
    let first: usize = block + redzone;
    let rem: usize = first % align;
    let base: usize = if rem == 0 {
        first
    } else {
        first + (align - rem)
    };
    AllocationRecord {
        base,
        requested_size: len,
        alignment: align,
        total_size: sizes.total_size,
        state: AllocationState::Allocated,
        block,
        block_size: sizes.block_size,
    }
}

} // verus!

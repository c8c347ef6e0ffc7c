//! Address arithmetic shared by the allocator front end and its collaborators.

use vstd::prelude::*;

verus! {

/// An address in the address space of the monitored code.
pub type GuestAddr = usize;

/// The least multiple of `align` that is not below `n`.
pub open spec fn align_up(n: int, align: int) -> int
    recommends
        align > 0,
{
    if n % align == 0 {
        n
    } else {
        n + (align - n % align)
    }
}

/// `align_up` yields a multiple of `align` in `[n, n + align)`.
pub proof fn lemma_align_up(n: int, align: int)
    requires
        align > 0,
    ensures
        align_up(n, align) % align == 0,
        n <= align_up(n, align) < n + align,
        n % align == 0 ==> align_up(n, align) == n,
{
    let r = n % align;
    if r != 0 {
        assert((n + (align - r)) % align == 0) by (nonlinear_arith)
            requires
                align > 0,
                r == n % align,
        ;
    }
}

/// Rounds `n` up to a multiple of `align`, or reports that the result does
/// not fit in a `usize`.
pub fn checked_align_up(n: usize, align: usize) -> (r: Option<usize>)
    requires
        align > 0,
    ensures
        match r {
            Some(v) => v == align_up(n as int, align as int),
            None => align_up(n as int, align as int) > usize::MAX,
        },
{
    let rem: usize = n % align;
    if rem == 0 {
        Some(n)
    } else {
        n.checked_add(align - rem)
    }
}

} // verus!

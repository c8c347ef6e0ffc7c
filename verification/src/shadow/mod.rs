//! Shadow memory: the validity state of every byte of a tracked region.
//!
//! A shadow answers, for any byte range, whether an access to it is allowed.
//! Its state is described byte by byte, whatever granularity an
//! implementation stores it at.

use vstd::prelude::*;

use crate::layout::GuestAddr;

pub mod guest;

verus! {

/// What the shadow knows of one byte of the tracked region.
#[derive(Clone, Copy, Debug, PartialEq, Eq, Structural)]
pub enum ByteState {
    /// Never handed out, or handed back to the raw allocator.
    Unaddressable,
    /// A redzone, or the body of a freed allocation that is still held back.
    Poisoned,
    /// The body of a live allocation.
    Addressable,
}

/// Why a shadow operation was refused.
#[derive(Clone, Copy, Debug, PartialEq, Eq, Structural)]
pub enum ShadowError {
    /// The range is not empty and leaves the region that the shadow tracks.
    OutOfRange,
}

/// Whether `[addr, addr + len)` may be handed to a shadow that tracks
/// `[lo, hi)`: an empty range always may, any other must lie inside.
pub open spec fn range_tracked(lo: int, hi: int, addr: int, len: int) -> bool {
    len == 0 || (lo <= addr && addr + len <= hi)
}

/// The shadow state `m` after every byte of `[addr, addr + len)` was set to `s`.
pub open spec fn paint(m: Map<int, ByteState>, addr: int, len: int, s: ByteState) -> Map<
    int,
    ByteState,
> {
    Map::new(
        |a: int| m.contains_key(a),
        |a: int|
            if addr <= a < addr + len {
                s
            } else {
                m[a]
            },
    )
}

/// Whether some byte of `[addr, addr + len)` is not addressable in `m`.
pub open spec fn any_poison(m: Map<int, ByteState>, addr: int, len: int) -> bool {
    exists|a: int| addr <= a < addr + len && #[trigger] m[a] != ByteState::Addressable
}

/// Whether every byte of `[addr, addr + len)` has state `s` in `m`.
pub open spec fn all_in_state(m: Map<int, ByteState>, addr: int, len: int, s: ByteState) -> bool {
    forall|a: int| addr <= a < addr + len ==> #[trigger] m[a] == s
}

/// Whether no byte of `[addr, addr + len)` is addressable in `m`.
pub open spec fn none_addressable(m: Map<int, ByteState>, addr: int, len: int) -> bool {
    forall|a: int| addr <= a < addr + len ==> #[trigger] m[a] != ByteState::Addressable
}

/// The poison state of a region of guest memory.
pub trait Shadow: Sized {
    /// The internal consistency of the shadow.
    spec fn wf(&self) -> bool;

    /// First address of the tracked region.
    spec fn lo(&self) -> int;

    /// One past the last address of the tracked region.
    spec fn hi(&self) -> int;

    /// The state of every tracked byte.
    spec fn view(&self) -> Map<int, ByteState>;

    /// A well-formed shadow tracks an address interval, and its view is
    /// defined exactly there.
    proof fn lemma_region(&self)
        requires
            self.wf(),
        ensures
            0 <= self.lo() <= self.hi() <= usize::MAX,
            forall|a: int| self@.contains_key(a) <==> self.lo() <= a < self.hi(),
    ;

    /// First address of the tracked region.
    fn start(&self) -> (r: GuestAddr)
        requires
            self.wf(),
        ensures
            r == self.lo(),
    ;

    /// One past the last address of the tracked region.
    fn end(&self) -> (r: GuestAddr)
        requires
            self.wf(),
        ensures
            r == self.hi(),
    ;

    /// Marks `[addr, addr + len)` as poisoned.
    fn poison(&mut self, addr: GuestAddr, len: usize) -> (r: Result<(), ShadowError>)
        requires
            old(self).wf(),
        ensures
            final(self).wf(),
            final(self).lo() == old(self).lo(),
            final(self).hi() == old(self).hi(),
            r is Ok <==> range_tracked(old(self).lo(), old(self).hi(), addr as int, len as int),
            r is Ok ==> final(self)@ == paint(
                old(self)@,
                addr as int,
                len as int,
                ByteState::Poisoned,
            ),
            r is Err ==> final(self)@ == old(self)@,
    ;

    /// Marks `[addr, addr + len)` as addressable.
    fn unpoison(&mut self, addr: GuestAddr, len: usize) -> (r: Result<(), ShadowError>)
        requires
            old(self).wf(),
        ensures
            final(self).wf(),
            final(self).lo() == old(self).lo(),
            final(self).hi() == old(self).hi(),
            r is Ok <==> range_tracked(old(self).lo(), old(self).hi(), addr as int, len as int),
            r is Ok ==> final(self)@ == paint(
                old(self)@,
                addr as int,
                len as int,
                ByteState::Addressable,
            ),
            r is Err ==> final(self)@ == old(self)@,
    ;

    /// Marks `[addr, addr + len)` as unaddressable, as it was before it was
    /// first handed out.
    fn reset(&mut self, addr: GuestAddr, len: usize) -> (r: Result<(), ShadowError>)
        requires
            old(self).wf(),
        ensures
            final(self).wf(),
            final(self).lo() == old(self).lo(),
            final(self).hi() == old(self).hi(),
            r is Ok <==> range_tracked(old(self).lo(), old(self).hi(), addr as int, len as int),
            r is Ok ==> final(self)@ == paint(
                old(self)@,
                addr as int,
                len as int,
                ByteState::Unaddressable,
            ),
            r is Err ==> final(self)@ == old(self)@,
    ;

    /// The state of the byte at `addr`.
    fn state(&self, addr: GuestAddr) -> (r: Result<ByteState, ShadowError>)
        requires
            self.wf(),
        ensures
            r is Ok <==> self.lo() <= addr < self.hi(),
            r matches Ok(s) ==> s == self@[addr as int],
    ;

    /// Whether any byte of `[addr, addr + len)` is poisoned or unaddressable.
    fn is_poison(&self, addr: GuestAddr, len: usize) -> (r: Result<bool, ShadowError>)
        requires
            self.wf(),
        ensures
            r is Ok <==> range_tracked(self.lo(), self.hi(), addr as int, len as int),
            r matches Ok(b) ==> b == any_poison(self@, addr as int, len as int),
    ;
}

/// Poisoning a range and then unpoisoning it gives the state that
/// unpoisoning alone gives, and leaves no byte of the range poisoned.
pub proof fn lemma_poison_then_unpoison(m: Map<int, ByteState>, addr: int, len: int)
    requires
        forall|a: int| addr <= a < addr + len ==> m.contains_key(a),
    ensures
        paint(paint(m, addr, len, ByteState::Poisoned), addr, len, ByteState::Addressable) == paint(
            m,
            addr,
            len,
            ByteState::Addressable,
        ),
        !any_poison(
            paint(paint(m, addr, len, ByteState::Poisoned), addr, len, ByteState::Addressable),
            addr,
            len,
        ),
{
}

/// A range is reported as poisoned exactly when it is not wholly
/// addressable; an empty range never is.
pub proof fn lemma_any_poison(m: Map<int, ByteState>, addr: int, len: int)
    ensures
        any_poison(m, addr, len) <==> !all_in_state(m, addr, len, ByteState::Addressable),
        len <= 0 ==> !any_poison(m, addr, len),
{
}

/// Every window that is not empty and lies in a range without an addressable
/// byte is reported as poisoned.
pub proof fn lemma_window_poisoned(
    m: Map<int, ByteState>,
    addr: int,
    len: int,
    at: int,
    width: int,
)
    requires
        none_addressable(m, addr, len),
        addr <= at,
        at + width <= addr + len,
        width > 0,
    ensures
        any_poison(m, at, width),
{
    assert(m[at] != ByteState::Addressable);
}

} // verus!

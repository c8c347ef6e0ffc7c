//! The runtime: what instrumented code asks of the sanitizer, with every
//! failure as a value. Whoever exports this to foreign code holds the one
//! instance behind a lock and turns a failure into the end of the process.

use vstd::prelude::*;

use crate::allocator::backend::Backend;
use crate::allocator::frontend::{DefaultFrontend, FrontendError};
use crate::layout::GuestAddr;
use crate::shadow::{any_poison, range_tracked, Shadow, ShadowError};
use crate::tracking::Tracking;

verus! {

/// The page size of a runtime that is given no other.
pub const PAGE_SIZE: usize = 4096;

/// What the check of an access of `[addr, addr + len)` returns, given
/// whether checks are enabled and what the shadow said of the range.
pub fn judge_access<E>(enabled: bool, answer: Result<bool, FrontendError<E>>) -> (r: Result<
    (),
    FrontendError<E>,
>)
    ensures
        !enabled ==> r is Ok,
        enabled ==> match answer {
            Ok(poisoned) => if poisoned {
                r == Err::<(), FrontendError<E>>(FrontendError::PoisonedAccess)
            } else {
                r is Ok
            },
            Err(e) => r == Err::<(), FrontendError<E>>(e),
        },
{
    if !enabled {
        return Ok(());
    }
    match answer {
        Ok(true) => Err(FrontendError::PoisonedAccess),
        Ok(false) => Ok(()),
        Err(e) => Err(e),
    }
}

/// A front end, the page size it was configured with, and the switch that
/// turns the checks of loads and stores off and on.
pub struct Sanitizer<B: Backend, S: Shadow, T: Tracking> {
    frontend: DefaultFrontend<B, S, T>,
    page_size: usize,
    enabled: bool,
}

impl<B: Backend, S: Shadow, T: Tracking> Sanitizer<B, S, T> {
    /// The front end, as a value.
    pub closed spec fn frontend_of(&self) -> DefaultFrontend<B, S, T> {
        self.frontend
    }

    /// The configured page size.
    pub closed spec fn page(&self) -> int {
        self.page_size as int
    }

    /// Whether loads and stores are checked.
    pub closed spec fn checking(&self) -> bool {
        self.enabled
    }

    /// The internal consistency of the runtime: that of its front end.
    pub open spec fn wf(&self) -> bool {
        self.frontend_of().wf()
    }

    /// A runtime over `frontend`, with checks enabled.
    pub fn new(frontend: DefaultFrontend<B, S, T>, page_size: usize) -> (r: Self)
        ensures
            r.frontend_of() == frontend,
            r.page() == page_size,
            r.checking(),
    {
        Sanitizer { frontend, page_size, enabled: true }
    }

    /// The front end.
    pub fn frontend(&self) -> (r: &DefaultFrontend<B, S, T>)
        ensures
            *r == self.frontend_of(),
    {
        &self.frontend
    }

    /// The configured page size.
    pub fn page_size(&self) -> (r: usize)
        ensures
            r == self.page(),
    {
        self.page_size
    }

    /// Whether loads and stores are checked.
    pub fn enabled(&self) -> (r: bool)
        ensures
            r == self.checking(),
    {
        self.enabled
    }

    /// Turns the checks of loads and stores on or off. Nothing else changes.
    pub fn swap(&mut self, enabled: bool)
        ensures
            final(self).checking() == enabled,
            final(self).frontend_of() == old(self).frontend_of(),
            final(self).page() == old(self).page(),
    {
        self.enabled = enabled;
    }

    /// Checks a load of `[addr, addr + size)`: `PoisonedAccess` when checks
    /// are enabled and some byte of the range is poisoned or unaddressable.
    pub fn load(&self, addr: GuestAddr, size: usize) -> (r: Result<(), FrontendError<T::Error>>)
        requires
            self.wf(),
        ensures
            r is Ok <==> !self.checking() || (range_tracked(
                self.frontend_of().shadow_lo(),
                self.frontend_of().shadow_hi(),
                addr as int,
                size as int,
            ) && !any_poison(self.frontend_of().shadow_view(), addr as int, size as int)),
            r matches Err(e) ==> if range_tracked(
                self.frontend_of().shadow_lo(),
                self.frontend_of().shadow_hi(),
                addr as int,
                size as int,
            ) {
                e == FrontendError::<T::Error>::PoisonedAccess
            } else {
                e == FrontendError::<T::Error>::Shadow(ShadowError::OutOfRange)
            },
    {
        if !self.enabled {
            return Ok(());
        }
        judge_access(self.enabled, self.frontend.is_poison(addr, size))
    }

    /// Checks a store to `[addr, addr + size)`: `PoisonedAccess` when checks
    /// are enabled and some byte of the range is poisoned or unaddressable.
    pub fn store(&self, addr: GuestAddr, size: usize) -> (r: Result<(), FrontendError<T::Error>>)
        requires
            self.wf(),
        ensures
            r is Ok <==> !self.checking() || (range_tracked(
                self.frontend_of().shadow_lo(),
                self.frontend_of().shadow_hi(),
                addr as int,
                size as int,
            ) && !any_poison(self.frontend_of().shadow_view(), addr as int, size as int)),
            r matches Err(e) ==> if range_tracked(
                self.frontend_of().shadow_lo(),
                self.frontend_of().shadow_hi(),
                addr as int,
                size as int,
            ) {
                e == FrontendError::<T::Error>::PoisonedAccess
            } else {
                e == FrontendError::<T::Error>::Shadow(ShadowError::OutOfRange)
            },
    {
        if !self.enabled {
            return Ok(());
        }
        judge_access(self.enabled, self.frontend.is_poison(addr, size))
    }

    /// The front end, to allocate, free, poison or track through it.
    pub fn frontend_mut(&mut self) -> (r: &mut DefaultFrontend<B, S, T>)
        ensures
            *r == old(self).frontend_of(),
            final(self).frontend_of() == *final(r),
            final(self).page() == old(self).page(),
            final(self).checking() == old(self).checking(),
    {
        &mut self.frontend
    }
}

} // verus!

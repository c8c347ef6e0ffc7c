use asan_runtime::allocator::backend::{Backend, PoolBackend};
use asan_runtime::allocator::frontend::{
    DefaultFrontend, FrontendError, DEFAULT_QUARANTINE_SIZE, DEFAULT_REDZONE_SIZE,
};
use asan_runtime::allocator::record::AllocationState;
use asan_runtime::shadow::guest::GuestShadow;
use asan_runtime::shadow::{ByteState, Shadow, ShadowError};
use asan_runtime::tracking::guest_fast::{GuestFastTracking, GuestFastTrackingError};

type Frontend = DefaultFrontend<PoolBackend, GuestShadow, GuestFastTracking>;
type Error = FrontendError<GuestFastTrackingError>;

const BASE: usize = 0x10000;
const PAGES: usize = 16;
const PAGE: usize = 4096;

fn frontend(redzone: usize, quarantine: usize) -> Frontend {
    let backend = PoolBackend::new(BASE, PAGES, PAGE).unwrap();
    let shadow = GuestShadow::new(BASE, PAGES * PAGE).unwrap();
    let tracking = GuestFastTracking::new().unwrap();
    DefaultFrontend::new(backend, shadow, tracking, redzone, quarantine).unwrap()
}

fn state(f: &Frontend, addr: usize) -> ByteState {
    f.shadow().state(addr).unwrap()
}

fn all(f: &Frontend, from: usize, to: usize, s: ByteState) -> bool {
    (from..to).all(|a| state(f, a) == s)
}

#[test]
fn redzones_guard_a_live_allocation() {
    let mut f = frontend(8, 1024);
    let a = f.allocate(16, 8).unwrap();
    assert_eq!(a % 8, 0);
    assert_eq!(f.is_poison(a - 8, 8), Ok(true));
    assert_eq!(f.is_poison(a, 16), Ok(false));
    assert_eq!(f.is_poison(a + 16, 8), Ok(true));
    assert_eq!(f.get_size(a), Ok(16));
    assert_eq!(f.dealloc(a), Ok(()));
    assert_eq!(f.is_poison(a, 16), Ok(true));
    assert_eq!(f.dealloc(a), Err(Error::InvalidFree));
}

#[test]
fn the_oldest_freed_block_leaves_the_quarantine() {
    let mut f = frontend(0, 32);
    let a = f.allocate(16, 8).unwrap();
    let b = f.allocate(16, 8).unwrap();
    let c = f.allocate(16, 8).unwrap();
    let (ra, rb, rc) = (
        f.record(a).unwrap(),
        f.record(b).unwrap(),
        f.record(c).unwrap(),
    );
    assert_eq!((ra.total_size, rb.total_size, rc.total_size), (16, 16, 16));

    assert_eq!(f.dealloc(a), Ok(()));
    assert_eq!(f.quarantine().len(), 1);
    assert!(all(&f, ra.block, ra.block + ra.block_size, ByteState::Poisoned));

    assert_eq!(f.dealloc(b), Ok(()));
    assert_eq!(f.quarantine().len(), 2);
    assert_eq!(f.quarantine().used(), 32);
    assert!(all(&f, ra.block, ra.block + ra.block_size, ByteState::Poisoned));

    assert_eq!(f.dealloc(c), Ok(()));
    assert_eq!(f.quarantine().len(), 2);
    assert_eq!(f.quarantine().used(), 32);
    assert_eq!(f.quarantine().get(0).unwrap().base, b);
    assert_eq!(f.quarantine().get(1).unwrap().base, c);
    assert_eq!(f.quarantine().get(0).unwrap().state, AllocationState::Quarantined);
    assert!(all(&f, ra.block, ra.block + ra.block_size, ByteState::Unaddressable));
    assert!(all(&f, rb.block, rb.block + rb.block_size, ByteState::Poisoned));
    assert!(all(&f, rc.block, rc.block + rc.block_size, ByteState::Poisoned));
    assert_eq!(f.is_poison(a, 16), Ok(true));
    assert_eq!(f.is_poison(b, 16), Ok(true));
    assert_eq!(f.is_poison(c, 16), Ok(true));

    let again = f.allocate(16, 8).unwrap();
    assert_eq!(f.record(again).unwrap().block, ra.block);
    assert_eq!(f.is_poison(again, 16), Ok(false));
}

#[test]
fn the_layout_of_a_block_is_fixed_by_the_request() {
    let mut f = frontend(8, 1024);
    let a = f.allocate(16, 8).unwrap();
    assert_eq!(a, BASE + 8);
    let r = f.record(a).unwrap();
    assert_eq!(r.base, a);
    assert_eq!(r.requested_size, 16);
    assert_eq!(r.alignment, 8);
    assert_eq!(r.total_size, 32);
    assert_eq!(r.block, BASE);
    assert_eq!(r.block_size, 40);
    assert_eq!(r.state, AllocationState::Allocated);
    assert!(all(&f, BASE, BASE + 8, ByteState::Poisoned));
    assert!(all(&f, BASE + 8, BASE + 24, ByteState::Addressable));
    assert!(all(&f, BASE + 24, BASE + 40, ByteState::Poisoned));
    assert!(all(&f, BASE + 40, BASE + 200, ByteState::Unaddressable));

    let b = f.allocate(13, 8).unwrap();
    assert_eq!(b, BASE + 48);
    let r = f.record(b).unwrap();
    assert_eq!(r.total_size, 32);
    assert_eq!(r.block, BASE + 40);
    assert!(all(&f, BASE + 40, BASE + 48, ByteState::Poisoned));
    assert!(all(&f, BASE + 48, BASE + 61, ByteState::Addressable));
    assert!(all(&f, BASE + 61, BASE + 80, ByteState::Poisoned));
    assert_eq!(f.is_poison(b, 13), Ok(false));
    assert_eq!(f.is_poison(b, 14), Ok(true));
    assert_eq!(f.is_poison(b - 1, 1), Ok(true));
}

#[test]
fn every_alignment_is_kept() {
    let mut f = frontend(DEFAULT_REDZONE_SIZE, DEFAULT_QUARANTINE_SIZE);
    let mut live: Vec<(usize, usize)> = Vec::new();
    for (len, align) in [
        (1usize, 1usize),
        (3, 2),
        (16, 4),
        (17, 8),
        (5, 16),
        (100, 32),
        (64, 64),
        (1, 256),
        (9, 1024),
        (33, 4096),
        (7, 3),
        (0, 8),
    ] {
        let a = f.allocate(len, align).unwrap();
        assert_eq!(a % align, 0);
        let r = f.record(a).unwrap();
        assert_eq!(r.total_size, (len + align - 1) / align * align + 2 * DEFAULT_REDZONE_SIZE);
        assert_eq!(r.block_size, r.total_size + align);
        assert!(r.block + DEFAULT_REDZONE_SIZE <= a);
        assert!(a + len + DEFAULT_REDZONE_SIZE <= r.block + r.block_size);
        assert!(all(&f, a - DEFAULT_REDZONE_SIZE, a, ByteState::Poisoned));
        assert!(all(&f, a, a + len, ByteState::Addressable));
        assert!(all(&f, a + len, a + len + DEFAULT_REDZONE_SIZE, ByteState::Poisoned));
        assert_eq!(f.is_poison(a - DEFAULT_REDZONE_SIZE, DEFAULT_REDZONE_SIZE), Ok(true));
        assert_eq!(f.is_poison(a, len), Ok(false));
        assert_eq!(f.is_poison(a + len, DEFAULT_REDZONE_SIZE), Ok(true));
        for (b, n) in &live {
            assert!(a + len <= *b || *b + *n <= a);
        }
        live.push((a, len));
    }
    for (a, len) in &live {
        assert_eq!(f.is_poison(*a, *len), Ok(false));
        assert_eq!(f.get_size(*a), Ok(*len));
    }
}

#[test]
fn empty_allocations_are_distinct() {
    let mut f = frontend(8, 1024);
    let a = f.allocate(0, 8).unwrap();
    let b = f.allocate(0, 8).unwrap();
    assert_ne!(a, b);
    assert_eq!(f.get_size(a), Ok(0));
    assert_eq!(f.get_size(b), Ok(0));
    assert_eq!(f.is_poison(a, 0), Ok(false));
    assert!(all(&f, a - 8, a + 8, ByteState::Poisoned));
    assert!(all(&f, b - 8, b + 8, ByteState::Poisoned));
    assert_eq!(f.record(a).unwrap().total_size, 16);
    assert_eq!(f.dealloc(a), Ok(()));
    assert_eq!(f.dealloc(a), Err(Error::InvalidFree));
    assert_eq!(f.dealloc(b), Ok(()));

    let mut g = frontend(0, 1024);
    let c = g.allocate(0, 1).unwrap();
    let d = g.allocate(0, 1).unwrap();
    assert_ne!(c, d);
    assert_eq!(g.record(c).unwrap().total_size, 0);
}

#[test]
fn a_request_that_cannot_be_served_is_out_of_memory() {
    let mut f = frontend(8, 1024);
    assert_eq!(f.allocate(PAGES * PAGE, 8), Err(Error::OutOfMemory));
    assert_eq!(f.allocate(usize::MAX, 8), Err(Error::OutOfMemory));
    assert_eq!(f.allocate(usize::MAX - 100, 1), Err(Error::OutOfMemory));
    assert_eq!(f.allocate(16, usize::MAX), Err(Error::OutOfMemory));
    assert!(all(&f, BASE, BASE + PAGES * PAGE, ByteState::Unaddressable));
    assert_eq!(f.tracking().len(), 0);
    assert_eq!(f.backend().mapped(), 0);

    let fits = PAGES * PAGE - 16 - 1;
    let a = f.allocate(fits, 1).unwrap();
    assert_eq!(a, BASE + 8);
    assert_eq!(f.allocate(1, 1), Err(Error::OutOfMemory));
    assert_eq!(f.get_size(a), Ok(fits));
}

#[test]
fn freeing_what_is_not_live_changes_nothing() {
    let mut f = frontend(8, 1024);
    let a = f.allocate(16, 8).unwrap();
    let b = f.allocate(32, 8).unwrap();
    f.dealloc(b).unwrap();
    let before: Vec<ByteState> = (BASE..BASE + 256).map(|x| state(&f, x)).collect();

    assert_eq!(f.dealloc(0), Err(Error::InvalidFree));
    assert_eq!(f.dealloc(a + 1), Err(Error::InvalidFree));
    assert_eq!(f.dealloc(a - 8), Err(Error::InvalidFree));
    assert_eq!(f.dealloc(b), Err(Error::InvalidFree));
    assert_eq!(f.dealloc(BASE + PAGES * PAGE), Err(Error::InvalidFree));
    assert_eq!(f.dealloc(usize::MAX), Err(Error::InvalidFree));

    let after: Vec<ByteState> = (BASE..BASE + 256).map(|x| state(&f, x)).collect();
    assert_eq!(before, after);
    assert_eq!(f.get_size(a), Ok(16));
    assert_eq!(f.quarantine().len(), 1);
    assert_eq!(f.quarantine().get(0).unwrap().base, b);
    assert_eq!(f.tracking().len(), 1);
    assert_eq!(f.tracking().get(a), Some(16));
}

#[test]
fn the_size_of_what_is_not_live_is_not_known() {
    let mut f = frontend(8, 1024);
    assert_eq!(f.get_size(BASE), Err(Error::InvalidAddress));
    let a = f.allocate(24, 8).unwrap();
    assert_eq!(f.get_size(a), Ok(24));
    assert_eq!(f.get_size(a + 8), Err(Error::InvalidAddress));
    assert_eq!(f.record(a + 8), None);
    f.dealloc(a).unwrap();
    assert_eq!(f.get_size(a), Err(Error::InvalidAddress));
}

#[test]
fn a_freed_allocation_stays_poisoned_in_the_quarantine() {
    let mut f = frontend(8, 4096);
    let a = f.allocate(64, 16).unwrap();
    let r = f.record(a).unwrap();
    f.dealloc(a).unwrap();
    for _ in 0..10 {
        let b = f.allocate(64, 16).unwrap();
        assert_ne!(f.record(b).unwrap().block, r.block);
        assert_eq!(f.is_poison(a, 64), Ok(true));
        assert_eq!(f.is_poison(a, 1), Ok(true));
        assert_eq!(f.is_poison(a + 63, 1), Ok(true));
        assert!(all(&f, r.block, r.block + r.block_size, ByteState::Poisoned));
    }
}

#[test]
fn a_block_over_the_capacity_goes_straight_back() {
    let mut f = frontend(8, 16);
    let a = f.allocate(16, 8).unwrap();
    let r = f.record(a).unwrap();
    assert_eq!(r.total_size, 32);
    assert_eq!(f.dealloc(a), Ok(()));
    assert_eq!(f.quarantine().len(), 0);
    assert_eq!(f.quarantine().used(), 0);
    assert!(all(&f, r.block, r.block + r.block_size, ByteState::Unaddressable));
    assert_eq!(f.is_poison(a, 16), Ok(true));
    assert_eq!(f.dealloc(a), Err(Error::InvalidFree));
    let again = f.allocate(16, 8).unwrap();
    assert_eq!(again, a);
}

#[test]
fn the_quarantine_never_exceeds_its_capacity() {
    let mut f = frontend(4, 200);
    let mut live = Vec::new();
    for i in 0..60usize {
        let a = f.allocate(1 + (i * 13) % 50, 1 << (i % 4)).unwrap();
        live.push(a);
        if i % 3 != 0 {
            let victim = live.remove((i * 7) % live.len());
            assert_eq!(f.dealloc(victim), Ok(()));
        }
        assert!(f.quarantine().used() <= 200);
        let sum: usize = (0..f.quarantine().len())
            .map(|k| f.quarantine().get(k).unwrap().total_size)
            .sum();
        assert_eq!(sum, f.quarantine().used());
        for k in 0..f.quarantine().len() {
            let q = f.quarantine().get(k).unwrap();
            assert!(all(&f, q.block, q.block + q.block_size, ByteState::Poisoned));
        }
        for a in &live {
            let n = f.get_size(*a).unwrap();
            assert_eq!(f.is_poison(*a, n), Ok(false));
            assert_eq!(f.is_poison(*a - 4, 4), Ok(true));
            assert_eq!(f.is_poison(*a + n, 4), Ok(true));
        }
    }
}

#[test]
fn tracking_follows_the_life_of_an_allocation() {
    let mut f = frontend(8, 1024);
    assert_eq!(f.tracking().len(), 0);
    let a = f.allocate(16, 8).unwrap();
    assert_eq!(f.tracking().get(a), Some(16));
    assert_eq!(f.tracking().len(), 1);
    let b = f.allocate(0, 1).unwrap();
    assert_eq!(f.tracking().get(b), Some(0));
    assert_eq!(f.tracking().len(), 2);
    f.dealloc(a).unwrap();
    assert_eq!(f.tracking().get(a), None);
    assert_eq!(f.tracking().len(), 1);
    assert_eq!(f.dealloc(a), Err(Error::InvalidFree));
    assert_eq!(f.tracking().len(), 1);
    f.dealloc(b).unwrap();
    assert_eq!(f.tracking().len(), 0);
}

#[test]
fn a_refusal_of_the_tracker_undoes_the_allocation() {
    let mut f = frontend(8, 1024);
    assert_eq!(f.track(BASE + 8, 4), Ok(()));
    assert_eq!(
        f.allocate(16, 8),
        Err(Error::Tracking(GuestFastTrackingError::TrackingConflict(BASE + 8)))
    );
    assert!(all(&f, BASE, BASE + 64, ByteState::Unaddressable));
    assert_eq!(f.record(BASE + 8), None);
    assert_eq!(f.tracking().get(BASE + 8), Some(4));
    assert_eq!(f.untrack(BASE + 8), Ok(()));
    assert_eq!(f.allocate(16, 8), Ok(BASE + 8));

    assert_eq!(f.untrack(BASE + 8), Ok(()));
    assert_eq!(
        f.dealloc(BASE + 8),
        Err(Error::Tracking(GuestFastTrackingError::AllocationNotFound(BASE + 8)))
    );
    assert_eq!(f.get_size(BASE + 8), Ok(16));
    assert_eq!(f.is_poison(BASE + 8, 16), Ok(false));
    assert_eq!(f.quarantine().len(), 0);
}

#[test]
fn direct_tracking_leaves_records_and_shadow_alone() {
    let mut f = frontend(8, 1024);
    let a = f.allocate(16, 8).unwrap();
    assert_eq!(f.track(0x500, 0x20), Ok(()));
    assert_eq!(f.tracking().get(0x500), Some(0x20));
    assert_eq!(
        f.track(0x500, 1),
        Err(Error::Tracking(GuestFastTrackingError::TrackingConflict(0x500)))
    );
    assert_eq!(f.get_size(0x500), Err(Error::InvalidAddress));
    assert_eq!(f.untrack(0x500), Ok(()));
    assert_eq!(
        f.untrack(0x500),
        Err(Error::Tracking(GuestFastTrackingError::AllocationNotFound(0x500)))
    );
    assert_eq!(f.get_size(a), Ok(16));
    assert_eq!(f.tracking().get(a), Some(16));
}

#[test]
fn direct_poisoning_leaves_the_records_alone() {
    let mut f = frontend(8, 1024);
    let a = f.allocate(16, 8).unwrap();
    let far = BASE + 8 * PAGE;
    assert_eq!(f.unpoison(far, 100), Ok(()));
    assert_eq!(f.is_poison(far, 100), Ok(false));
    assert_eq!(f.is_poison(far, 101), Ok(true));
    assert_eq!(f.poison(far + 10, 1), Ok(()));
    assert_eq!(f.is_poison(far, 100), Ok(true));
    assert_eq!(state(&f, far + 10), ByteState::Poisoned);
    assert_eq!(f.unpoison(far + 10, 1), Ok(()));
    assert_eq!(f.is_poison(far, 100), Ok(false));
    assert_eq!(f.get_size(a), Ok(16));
    assert_eq!(f.get_size(far), Err(Error::InvalidAddress));
    assert_eq!(f.tracking().len(), 1);
    assert_eq!(f.is_poison(a, 16), Ok(false));
}

#[test]
fn a_range_that_the_shadow_does_not_track_is_refused() {
    let mut f = frontend(8, 1024);
    let out = Error::Shadow(ShadowError::OutOfRange);
    assert_eq!(f.is_poison(BASE - 1, 1), Err(out));
    let out = Error::Shadow(ShadowError::OutOfRange);
    assert_eq!(f.poison(BASE + PAGES * PAGE - 1, 2), Err(out));
    let out = Error::Shadow(ShadowError::OutOfRange);
    assert_eq!(f.unpoison(0, 1), Err(out));
    assert_eq!(f.unpoison(0, 0), Ok(()));
    assert_eq!(f.is_poison(0, 0), Ok(false));
}

#[test]
fn the_shadow_must_cover_the_pool() {
    let make = |pool: usize, pages: usize, at: usize, len: usize| {
        DefaultFrontend::new(
            PoolBackend::new(pool, pages, PAGE).unwrap(),
            GuestShadow::new(at, len).unwrap(),
            GuestFastTracking::new().unwrap(),
            8,
            1024,
        )
    };
    assert!(make(BASE, 4, BASE, 4 * PAGE).is_ok());
    assert!(make(BASE, 4, BASE - 64, 5 * PAGE).is_ok());
    assert_eq!(
        make(BASE, 4, BASE + 1, 4 * PAGE).err(),
        Some(Error::Shadow(ShadowError::OutOfRange))
    );
    assert_eq!(
        make(BASE, 4, BASE, 4 * PAGE - 1).err(),
        Some(Error::Shadow(ShadowError::OutOfRange))
    );
}

#[test]
fn the_configuration_is_kept() {
    let mut f = frontend(24, 4096);
    assert_eq!(f.redzone_size(), 24);
    assert_eq!(f.quarantine_size(), 4096);
    assert_eq!(f.backend().page_size(), PAGE);
    assert_eq!(f.backend().start(), BASE);
    assert_eq!(f.shadow().start(), BASE);
    let a = f.allocate(8, 8).unwrap();
    f.dealloc(a).unwrap();
    assert_eq!(f.redzone_size(), 24);
    assert_eq!(f.quarantine_size(), 4096);
    assert_eq!(DEFAULT_REDZONE_SIZE, 128);
    assert_eq!(DEFAULT_QUARANTINE_SIZE, 50 << 20);
}

#[test]
fn purge_hands_every_quarantined_block_back() {
    let mut f = frontend(8, 4096);
    let a = f.allocate(16, 8).unwrap();
    let b = f.allocate(16, 8).unwrap();
    let c = f.allocate(16, 8).unwrap();
    let (ra, rb) = (f.record(a).unwrap(), f.record(b).unwrap());
    f.dealloc(a).unwrap();
    f.dealloc(b).unwrap();
    assert_eq!(f.quarantine().len(), 2);
    f.purge();
    assert_eq!(f.quarantine().len(), 0);
    assert_eq!(f.quarantine().used(), 0);
    assert!(all(&f, ra.block, ra.block + ra.block_size, ByteState::Unaddressable));
    assert!(all(&f, rb.block, rb.block + rb.block_size, ByteState::Unaddressable));
    assert_eq!(f.is_poison(c, 16), Ok(false));
    assert_eq!(f.get_size(c), Ok(16));
    assert_eq!(f.allocate(16, 8), Ok(a));
    assert_eq!(f.allocate(16, 8), Ok(b));
}

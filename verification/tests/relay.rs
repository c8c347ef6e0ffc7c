use std::sync::atomic::{AtomicBool, AtomicUsize, Ordering};

use asan_runtime::allocator::backend::PoolBackend;
use asan_runtime::allocator::frontend::{DefaultFrontend, FrontendError};
use asan_runtime::host::Host;
use asan_runtime::shadow::guest::GuestShadow;
use asan_runtime::shadow::{ByteState, Shadow};
use asan_runtime::tracking::host::{HostTracking, HostTrackingError};

const BASE: usize = 0x10000;

static REFUSE: AtomicBool = AtomicBool::new(false);
static TRACKS: AtomicUsize = AtomicUsize::new(0);
static UNTRACKS: AtomicUsize = AtomicUsize::new(0);
static LAST_START: AtomicUsize = AtomicUsize::new(0);
static LAST_END: AtomicUsize = AtomicUsize::new(0);

#[derive(Debug, PartialEq)]
struct Moody;

impl Host for Moody {
    type Error = u16;

    fn track(start: usize, end: usize) -> Result<(), u16> {
        if REFUSE.load(Ordering::SeqCst) {
            return Err(12);
        }
        TRACKS.fetch_add(1, Ordering::SeqCst);
        LAST_START.store(start, Ordering::SeqCst);
        LAST_END.store(end, Ordering::SeqCst);
        Ok(())
    }

    fn untrack(start: usize) -> Result<(), u16> {
        if REFUSE.load(Ordering::SeqCst) {
            return Err(13);
        }
        UNTRACKS.fetch_add(1, Ordering::SeqCst);
        LAST_START.store(start, Ordering::SeqCst);
        Ok(())
    }
}

#[test]
fn a_front_end_over_a_relay_tells_the_host_once_for_each_event() {
    let mut f = DefaultFrontend::new(
        PoolBackend::new(BASE, 4, 4096).unwrap(),
        GuestShadow::new(BASE, 4 * 4096).unwrap(),
        HostTracking::<Moody>::new().ok().unwrap(),
        8,
        1024,
    )
    .unwrap();

    let a = f.allocate(16, 8).unwrap();
    assert_eq!(TRACKS.load(Ordering::SeqCst), 1);
    assert_eq!(LAST_START.load(Ordering::SeqCst), a);
    assert_eq!(LAST_END.load(Ordering::SeqCst), a + 16);

    REFUSE.store(true, Ordering::SeqCst);
    assert_eq!(
        f.allocate(16, 8),
        Err(FrontendError::Tracking(HostTrackingError::HostError(12)))
    );
    assert_eq!(
        f.dealloc(a),
        Err(FrontendError::Tracking(HostTrackingError::HostError(13)))
    );
    assert_eq!(f.get_size(a), Ok(16));
    assert_eq!(f.is_poison(a, 16), Ok(false));
    assert_eq!(f.quarantine().len(), 0);
    assert!((BASE + 40..BASE + 128).all(|x| f.shadow().state(x) == Ok(ByteState::Unaddressable)));
    assert_eq!(f.dealloc(a + 1), Err(FrontendError::InvalidFree));
    assert_eq!(TRACKS.load(Ordering::SeqCst), 1);
    assert_eq!(UNTRACKS.load(Ordering::SeqCst), 0);

    REFUSE.store(false, Ordering::SeqCst);
    assert_eq!(f.dealloc(a + 1), Err(FrontendError::InvalidFree));
    assert_eq!(UNTRACKS.load(Ordering::SeqCst), 0);
    assert_eq!(f.dealloc(a), Ok(()));
    assert_eq!(UNTRACKS.load(Ordering::SeqCst), 1);
    assert_eq!(LAST_START.load(Ordering::SeqCst), a);
    assert_eq!(f.dealloc(a), Err(FrontendError::InvalidFree));
    assert_eq!(UNTRACKS.load(Ordering::SeqCst), 1);

    let b = f.allocate(0, 1).unwrap();
    assert_eq!(TRACKS.load(Ordering::SeqCst), 2);
    assert_eq!(LAST_START.load(Ordering::SeqCst), b);
    assert_eq!(LAST_END.load(Ordering::SeqCst), b);
}

use asan_runtime::allocator::quarantine::Quarantine;
use asan_runtime::allocator::record::{AllocationRecord, AllocationState};

fn entry(base: usize, total_size: usize) -> AllocationRecord {
    AllocationRecord {
        base,
        requested_size: total_size,
        alignment: 1,
        total_size,
        state: AllocationState::Quarantined,
        block: base,
        block_size: total_size + 1,
    }
}

fn bases(v: &[AllocationRecord]) -> Vec<usize> {
    v.iter().map(|r| r.base).collect()
}

fn held(q: &Quarantine) -> Vec<usize> {
    (0..q.len()).map(|i| q.get(i).unwrap().base).collect()
}

#[test]
fn a_new_quarantine_is_empty() {
    let q = Quarantine::new(32);
    assert_eq!(q.capacity(), 32);
    assert_eq!(q.used(), 0);
    assert_eq!(q.len(), 0);
    assert_eq!(q.get(0), None);
}

#[test]
fn records_stay_while_they_fit() {
    let mut q = Quarantine::new(32);
    assert!(q.push(entry(100, 16)).is_empty());
    assert!(q.push(entry(200, 16)).is_empty());
    assert_eq!(q.used(), 32);
    assert_eq!(held(&q), vec![100, 200]);
}

#[test]
fn the_oldest_records_leave_first() {
    let mut q = Quarantine::new(32);
    q.push(entry(100, 16));
    q.push(entry(200, 16));
    let evicted = q.push(entry(300, 16));
    assert_eq!(bases(&evicted), vec![100]);
    assert_eq!(held(&q), vec![200, 300]);
    assert_eq!(q.used(), 32);
    let evicted = q.push(entry(400, 32));
    assert_eq!(bases(&evicted), vec![200, 300]);
    assert_eq!(held(&q), vec![400]);
    assert_eq!(q.used(), 32);
}

#[test]
fn eviction_goes_by_age_and_not_by_size() {
    let mut q = Quarantine::new(100);
    q.push(entry(1, 10));
    q.push(entry(2, 80));
    q.push(entry(3, 10));
    let evicted = q.push(entry(4, 15));
    assert_eq!(bases(&evicted), vec![1, 2]);
    assert_eq!(held(&q), vec![3, 4]);
    assert_eq!(q.used(), 25);
}

#[test]
fn no_more_leaves_than_must() {
    let mut q = Quarantine::new(100);
    q.push(entry(1, 40));
    q.push(entry(2, 40));
    let evicted = q.push(entry(3, 60));
    assert_eq!(bases(&evicted), vec![1]);
    assert_eq!(q.used(), 100);
    let evicted = q.push(entry(4, 0));
    assert!(evicted.is_empty());
    assert_eq!(held(&q), vec![2, 3, 4]);
}

#[test]
fn a_record_over_the_capacity_leaves_at_once() {
    let mut q = Quarantine::new(32);
    q.push(entry(100, 16));
    let evicted = q.push(entry(200, 33));
    assert_eq!(bases(&evicted), vec![100, 200]);
    assert_eq!(q.len(), 0);
    assert_eq!(q.used(), 0);
}

#[test]
fn a_quarantine_without_room_holds_nothing_but_empty_records() {
    let mut q = Quarantine::new(0);
    assert_eq!(bases(&q.push(entry(1, 1))), vec![1]);
    assert!(q.push(entry(2, 0)).is_empty());
    assert_eq!(held(&q), vec![2]);
    assert_eq!(q.used(), 0);
}

#[test]
fn huge_records_do_not_overflow_the_count() {
    let mut q = Quarantine::new(usize::MAX);
    q.push(entry(1, usize::MAX - 1));
    let evicted = q.push(entry(2, 2));
    assert_eq!(bases(&evicted), vec![1]);
    assert_eq!(q.used(), 2);
    let evicted = q.push(entry(3, usize::MAX - 2));
    assert!(evicted.is_empty());
    assert_eq!(q.used(), usize::MAX);
}

#[test]
fn occupancy_stays_within_capacity() {
    let mut q = Quarantine::new(50);
    let mut out = Vec::new();
    for i in 0..40usize {
        let size = (i * 7) % 23;
        out.extend(bases(&q.push(entry(i, size))));
        assert!(q.used() <= 50);
        let sum: usize = (0..q.len()).map(|k| q.get(k).unwrap().total_size).sum();
        assert_eq!(sum, q.used());
    }
    let sorted: Vec<usize> = {
        let mut s = out.clone();
        s.sort();
        s
    };
    assert_eq!(out, sorted);
}

#[test]
fn drain_hands_out_everything_in_order() {
    let mut q = Quarantine::new(100);
    q.push(entry(1, 10));
    q.push(entry(2, 20));
    q.push(entry(3, 30));
    let all = q.drain();
    assert_eq!(bases(&all), vec![1, 2, 3]);
    assert_eq!(q.len(), 0);
    assert_eq!(q.used(), 0);
    assert_eq!(q.capacity(), 100);
    assert!(q.drain().is_empty());
}

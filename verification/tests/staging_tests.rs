use node_caches::staging::{
    prefetch_state_matches, PollOutcome, PrefetchSlot, PrefetchStagingArea, PrefetcherResult,
    MAX_PREFETCH_STAGING_MEMORY, PREFETCH_RESERVED_BYTES_PER_SLOT,
};

const MIB: usize = 1024 * 1024;

fn key(n: u8) -> Vec<u8> {
    vec![n]
}

#[test]
fn reservation_charges_quantum() {
    let mut s = PrefetchStagingArea::new();
    assert_eq!(s.size_bytes, 0);
    assert_eq!(s.limit, MAX_PREFETCH_STAGING_MEMORY);
    let r = s.get_and_set_if_empty(key(1), PrefetchSlot::PendingPrefetch);
    assert!(matches!(r, PrefetcherResult::SlotReserved));
    assert_eq!(s.size_bytes, PREFETCH_RESERVED_BYTES_PER_SLOT);
}

#[test]
fn insert_fetched_swaps_quantum_for_length() {
    let mut s = PrefetchStagingArea::new();
    let r = s.get_and_set_if_empty(key(1), PrefetchSlot::PendingPrefetch);
    assert!(matches!(r, PrefetcherResult::SlotReserved));
    s.insert_fetched(key(1), vec![7, 8, 9]);
    assert_eq!(s.size_bytes, 3);
    match s.get_and_set_if_empty(key(1), PrefetchSlot::PendingPrefetch) {
        PrefetcherResult::Prefetched(b) => assert_eq!(b, vec![7, 8, 9]),
        _ => panic!("expected the staged bytes"),
    }
}

#[test]
fn pending_slot_reports_pending() {
    let mut s = PrefetchStagingArea::new();
    let _ = s.get_and_set_if_empty(key(1), PrefetchSlot::PendingFetch);
    let r = s.get_and_set_if_empty(key(1), PrefetchSlot::PendingPrefetch);
    assert!(matches!(r, PrefetcherResult::Pending));
    assert_eq!(s.size_bytes, PREFETCH_RESERVED_BYTES_PER_SLOT);
}

#[test]
fn release_subtracts_stored_length() {
    let mut s = PrefetchStagingArea::new();
    let _ = s.get_and_set_if_empty(key(1), PrefetchSlot::PendingPrefetch);
    s.insert_fetched(key(1), vec![1, 2, 3, 4]);
    s.release(&key(1));
    assert_eq!(s.size_bytes, 0);
    assert!(matches!(s.poll_fetched(&key(1)), PollOutcome::Absent));
}

#[test]
fn release_of_main_thread_reservation() {
    let mut s = PrefetchStagingArea::new();
    let _ = s.get_or_set_fetching(key(1));
    assert_eq!(s.size_bytes, PREFETCH_RESERVED_BYTES_PER_SLOT);
    s.release(&key(1));
    assert_eq!(s.size_bytes, 0);
}

#[test]
fn release_of_absent_slot_is_a_noop() {
    let mut s = PrefetchStagingArea::new();
    s.release(&key(9));
    assert_eq!(s.size_bytes, 0);
}

#[test]
fn memory_limit_refuses_third_reservation() {
    let mut s = PrefetchStagingArea::with_limit(8 * MIB);
    let r1 = s.get_and_set_if_empty(key(1), PrefetchSlot::PendingPrefetch);
    assert!(matches!(r1, PrefetcherResult::SlotReserved));
    let r2 = s.get_and_set_if_empty(key(2), PrefetchSlot::PendingPrefetch);
    assert!(matches!(r2, PrefetcherResult::SlotReserved));
    let r3 = s.get_and_set_if_empty(key(3), PrefetchSlot::PendingPrefetch);
    assert!(matches!(r3, PrefetcherResult::MemoryLimitReached));
    s.insert_fetched(key(1), vec![5]);
    s.release(&key(1));
    let r4 = s.get_and_set_if_empty(key(3), PrefetchSlot::PendingPrefetch);
    assert!(matches!(r4, PrefetcherResult::SlotReserved));
}

#[test]
fn size_stays_under_limit_through_a_run() {
    let mut s = PrefetchStagingArea::with_limit(12 * MIB);
    for n in 0..10u8 {
        let _ = s.get_and_set_if_empty(key(n), PrefetchSlot::PendingPrefetch);
        assert!(s.size_bytes <= s.limit);
    }
    for n in 0..3u8 {
        match s.get_and_set_if_empty(key(n), PrefetchSlot::PendingPrefetch) {
            PrefetcherResult::Pending => {
                s.insert_fetched(key(n), vec![n; 100]);
            }
            _ => {}
        }
        assert!(s.size_bytes <= s.limit);
    }
}

#[test]
fn poll_fetched_reports_each_state() {
    let mut s = PrefetchStagingArea::new();
    assert!(matches!(s.poll_fetched(&key(1)), PollOutcome::Absent));
    let _ = s.get_and_set_if_empty(key(1), PrefetchSlot::PendingPrefetch);
    assert!(matches!(s.poll_fetched(&key(1)), PollOutcome::KeepWaiting));
    s.insert_fetched(key(1), vec![42]);
    match s.poll_fetched(&key(1)) {
        PollOutcome::Ready(b) => assert_eq!(b, vec![42]),
        _ => panic!("expected the staged bytes"),
    }
}

#[test]
fn num_done_counts_only_finished_slots() {
    let mut s = PrefetchStagingArea::new();
    let _ = s.get_and_set_if_empty(key(1), PrefetchSlot::PendingPrefetch);
    let _ = s.get_and_set_if_empty(key(2), PrefetchSlot::PendingPrefetch);
    let _ = s.get_or_set_fetching(key(3));
    assert_eq!(s.num_done(), 0);
    s.insert_fetched(key(1), vec![1]);
    assert_eq!(s.num_done(), 1);
    s.insert_fetched(key(2), vec![2, 2]);
    assert_eq!(s.num_done(), 2);
    s.release(&key(1));
    assert_eq!(s.num_done(), 1);
}

#[test]
fn state_matching_ignores_payload() {
    assert!(prefetch_state_matches(
        PrefetchSlot::Done(vec![]),
        &PrefetchSlot::Done(vec![1, 2, 3])
    ));
    assert!(prefetch_state_matches(
        PrefetchSlot::PendingPrefetch,
        &PrefetchSlot::PendingPrefetch
    ));
    assert!(prefetch_state_matches(
        PrefetchSlot::PendingFetch,
        &PrefetchSlot::PendingFetch
    ));
    assert!(!prefetch_state_matches(
        PrefetchSlot::PendingPrefetch,
        &PrefetchSlot::PendingFetch
    ));
    assert!(!prefetch_state_matches(
        PrefetchSlot::Done(vec![]),
        &PrefetchSlot::PendingPrefetch
    ));
}

use node_caches::trie_storage::{
    MainReadBegin, PendingOutcome, RetrieveBegin, StorageError, StoreReadResult,
    TrieCachingStorage,
};

fn hash(n: u8) -> Vec<u8> {
    vec![n; 32]
}

#[test]
fn prefetch_hit_promotes_and_empties_staging() {
    let mut core = TrieCachingStorage::new();
    let h = hash(1);
    let node = vec![10, 20, 30];
    // An I/O worker walks the trie: shard cache misses, a slot is reserved.
    let begin = core.retrieve_begin(&h);
    assert!(matches!(begin, RetrieveBegin::NeedFetch));
    // The worker's one store read lands in the staging area.
    let got = core.retrieve_fetched(&h, StoreReadResult::Value(node.clone()));
    assert_eq!(got.unwrap(), node);
    assert_eq!(core.num_prefetched_and_staged(), 1);
    // The main thread's real read finds the staged value and promotes it.
    match core.read_begin(&h) {
        MainReadBegin::Value(b) => assert_eq!(b, node),
        _ => panic!("expected the prefetched bytes"),
    }
    assert_eq!(core.num_prefetched_and_staged(), 0);
    // Now it is the shard cache that answers.
    match core.read_begin(&h) {
        MainReadBegin::Value(b) => assert_eq!(b, node),
        _ => panic!("expected the shard cache to answer"),
    }
}

#[test]
fn main_thread_races_worker() {
    let mut core = TrieCachingStorage::new();
    let h = hash(2);
    let node = vec![1, 1, 2, 3, 5];
    // The main thread reads first and reserves the slot for itself.
    let main_begin = core.read_begin(&h);
    assert!(matches!(main_begin, MainReadBegin::FetchNeeded));
    // A worker arrives while the main thread's fetch is in flight.
    let worker_begin = core.retrieve_begin(&h);
    assert!(matches!(worker_begin, RetrieveBegin::MustWait));
    // The main thread finishes: shard cache insertion, then release.
    core.promote(&h, node.clone());
    // The worker's wait resolves through the shard cache re-check.
    match core.retrieve_pending(&h) {
        PendingOutcome::Ready(b) => assert_eq!(b, node),
        _ => panic!("the worker should see the promoted bytes"),
    }
}

#[test]
fn missing_trie_node_is_reported() {
    let mut core = TrieCachingStorage::new();
    let h = hash(3);
    assert!(matches!(core.retrieve_begin(&h), RetrieveBegin::NeedFetch));
    match core.retrieve_fetched(&h, StoreReadResult::Missing) {
        Err(StorageError::StorageInconsistentState(m)) => {
            assert_eq!(m, "Trie node missing");
        }
        _ => panic!("a missing node must be an inconsistent-state error"),
    }
}

#[test]
fn store_io_error_is_internal() {
    let mut core = TrieCachingStorage::new();
    let h = hash(4);
    assert!(matches!(core.retrieve_begin(&h), RetrieveBegin::NeedFetch));
    match core.retrieve_fetched(&h, StoreReadResult::IoError) {
        Err(StorageError::StorageInternalError) => {}
        _ => panic!("an I/O error must be an internal error"),
    }
}

#[test]
fn abandoned_wait_fails_the_request() {
    let core = TrieCachingStorage::new();
    let h = hash(5);
    match core.retrieve_pending(&h) {
        PendingOutcome::Failed(StorageError::StorageInconsistentState(m)) => {
            assert_eq!(m, "Prefetcher failed");
        }
        _ => panic!("no slot and no cached value must abandon the request"),
    }
}

#[test]
fn staging_memory_limit_fails_worker_reads() {
    let mut core = TrieCachingStorage::new();
    // 200 MiB limit over 4 MiB reservations: fifty fit, then workers abandon.
    for n in 0..50u8 {
        assert!(matches!(
            core.retrieve_begin(&hash(n)),
            RetrieveBegin::NeedFetch
        ));
    }
    match core.retrieve_begin(&hash(50)) {
        RetrieveBegin::Failed(StorageError::StorageInconsistentState(m)) => {
            assert_eq!(m, "Prefetcher failed");
        }
        _ => panic!("the staging area should be at its limit"),
    }
}

#[test]
fn clear_cache_forgets_promoted_values() {
    let mut core = TrieCachingStorage::new();
    let h = hash(6);
    let node = vec![9];
    assert!(matches!(core.read_begin(&h), MainReadBegin::FetchNeeded));
    core.promote(&h, node.clone());
    match core.read_begin(&h) {
        MainReadBegin::Value(b) => assert_eq!(b, node),
        _ => panic!("expected the shard cache to answer"),
    }
    core.clear_cache();
    assert!(matches!(core.read_begin(&h), MainReadBegin::FetchNeeded));
}

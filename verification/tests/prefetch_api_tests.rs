use node_caches::prefetch_api::{PrefetchApi, WorkerAction, MAX_QUEUED_WORK_ITEMS};

#[test]
fn queue_hands_keys_out_oldest_first() {
    let mut api = PrefetchApi::new();
    assert!(api.prefetch_trie_key(vec![1]).is_ok());
    assert!(api.prefetch_trie_key(vec![2]).is_ok());
    match api.worker_step() {
        WorkerAction::Walk(k) => assert_eq!(k, vec![1]),
        _ => panic!("expected the first queued key"),
    }
    match api.worker_step() {
        WorkerAction::Walk(k) => assert_eq!(k, vec![2]),
        _ => panic!("expected the second queued key"),
    }
    assert!(matches!(api.worker_step(), WorkerAction::Sleep));
}

#[test]
fn full_queue_returns_the_key() {
    let mut api = PrefetchApi::new();
    for n in 0..MAX_QUEUED_WORK_ITEMS {
        let k = vec![(n % 251) as u8];
        assert!(api.prefetch_trie_key(k).is_ok());
    }
    match api.prefetch_trie_key(vec![77]) {
        Err(k) => assert_eq!(k, vec![77]),
        Ok(()) => panic!("a full queue must hand the key back"),
    }
}

#[test]
fn clear_drains_queued_work() {
    let mut api = PrefetchApi::new();
    for n in 0..100u8 {
        let _ = api.prefetch_trie_key(vec![n]);
    }
    assert!(api.work_queued());
    api.clear();
    assert!(!api.work_queued());
    assert!(matches!(api.worker_step(), WorkerAction::Sleep));
}

#[test]
fn stop_makes_workers_exit() {
    let mut api = PrefetchApi::new();
    let _ = api.prefetch_trie_key(vec![1]);
    api.stop();
    // Queued work is left behind; the worker exits before touching it.
    assert!(matches!(api.worker_step(), WorkerAction::Exit));
    assert!(api.work_queued());
}

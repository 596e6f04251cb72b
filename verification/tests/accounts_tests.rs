use node_caches::account_data::{AccountData, LocalData, SignedAccountData};
use node_caches::accounts_cache::{Cache, Error};
use node_caches::keyset::KeySet;
use node_caches::kvmap::KvMap;
use node_caches::sig::compute_tag;

fn key(n: u8) -> Vec<u8> {
    vec![n; 4]
}

fn keys_table(entries: &[(&[u8], &[Vec<u8>])]) -> KvMap<KeySet> {
    let mut table: KvMap<KeySet> = KvMap::new();
    for (account_id, keys) in entries {
        let mut set = KeySet::new();
        for k in keys.iter() {
            set.insert_if_absent(k.clone());
        }
        table.insert(account_id.to_vec(), set);
    }
    table
}

fn signed(account_key: &[u8], version: u64, timestamp: u64, valid: bool) -> SignedAccountData {
    let payload = vec![version as u8, 7, 7];
    let tag = compute_tag(&account_key.to_vec(), &payload);
    SignedAccountData {
        account_key: account_key.to_vec(),
        version,
        timestamp,
        payload,
        signature: if valid { tag } else { tag.wrapping_add(1) },
    }
}

fn local_for(account_key: &[u8]) -> LocalData {
    LocalData {
        signer_key: account_key.to_vec(),
        data: AccountData {
            peer_id: Some(vec![5, 5]),
            epoch_id: vec![1],
            account_id: vec![2],
            peers: vec![],
        },
    }
}

#[test]
fn bad_batch_rejected() {
    let k1 = key(1);
    let mut cache = Cache::new();
    assert!(cache.set_keys(keys_table(&[(b"a", &[k1.clone()])])));
    let batch = vec![signed(&k1, 1, 100, true), signed(&k1, 2, 100, true)];
    let (inserted, err) = cache.insert(1000, batch);
    assert!(inserted.is_empty());
    assert_eq!(err, Some(Error::SingleAccountMultipleData));
    let snap = cache.load();
    assert!(snap.data.get(&k1).is_none());
}

#[test]
fn partial_commit_on_bad_signature() {
    let k1 = key(1);
    let k2 = key(2);
    let mut cache = Cache::new();
    assert!(cache.set_keys(keys_table(&[(b"a", &[k1.clone()]), (b"b", &[k2.clone()])])));
    let v1 = signed(&k1, 1, 100, true);
    let v2 = signed(&k2, 1, 100, false);
    let (inserted, err) = cache.insert(1000, vec![v1, v2]);
    assert_eq!(err, Some(Error::InvalidSignature));
    assert_eq!(inserted.len(), 1);
    assert_eq!(inserted[0].account_key, k1);
    let snap = cache.load();
    assert_eq!(snap.data.get(&k1).unwrap().version, 1);
    assert!(snap.data.get(&k2).is_none());
}

#[test]
fn oversized_payload_rejects_whole_batch() {
    let k1 = key(1);
    let k2 = key(2);
    let mut cache = Cache::new();
    assert!(cache.set_keys(keys_table(&[(b"a", &[k1.clone(), k2.clone()])])));
    let good = signed(&k2, 1, 100, true);
    let payload = vec![0u8; 10001];
    let tag = compute_tag(&k1, &payload);
    let big = SignedAccountData {
        account_key: k1.clone(),
        version: 1,
        timestamp: 100,
        payload,
        signature: tag,
    };
    let (inserted, err) = cache.insert(1000, vec![big, good]);
    assert!(inserted.is_empty());
    assert_eq!(err, Some(Error::DataTooLarge));
    let snap = cache.load();
    assert!(snap.data.get(&k1).is_none());
    assert!(snap.data.get(&k2).is_none());
}

#[test]
fn self_override_rebuild() {
    let k = key(9);
    let mut cache = Cache::new();
    assert!(cache.set_keys(keys_table(&[(b"me", &[k.clone()])])));
    // The network already knows a record for our key.
    let (inserted, err) = cache.insert(500, vec![signed(&k, 10, 500, true)]);
    assert!(err.is_none());
    assert_eq!(inserted.len(), 1);
    // The node starts signing locally; that publishes version 11.
    let out = cache.set_local(600, local_for(&k));
    assert_eq!(out.unwrap().version, 11);
    // An echo of a previous run arrives with a higher version.
    let echo = signed(&k, 12, 550, true);
    let echo_payload = echo.payload.clone();
    let (inserted, err) = cache.insert(700, vec![echo]);
    assert!(err.is_none());
    assert_eq!(inserted.len(), 1);
    let stored = &inserted[0];
    // The stored record is not the echo: it is rebuilt from the local data,
    // one version above the echo, freshly signed at the current time.
    assert_eq!(stored.version, 13);
    assert_eq!(stored.timestamp, 700);
    assert_eq!(stored.account_key, k);
    assert_ne!(stored.payload, echo_payload);
    assert_eq!(stored.signature, compute_tag(&k, &stored.payload));
    let snap = cache.load();
    assert_eq!(snap.data.get(&k).unwrap().version, 13);
}

#[test]
fn stale_and_unknown_entries_drop_silently() {
    let k1 = key(1);
    let unknown = key(8);
    let mut cache = Cache::new();
    assert!(cache.set_keys(keys_table(&[(b"a", &[k1.clone()])])));
    let (inserted, err) = cache.insert(100, vec![signed(&k1, 5, 50, true)]);
    assert!(err.is_none());
    assert_eq!(inserted.len(), 1);
    // An older version for a known key, and anything for an unknown key,
    // are dropped without an error.
    let batch = vec![signed(&k1, 4, 60, true), signed(&unknown, 1, 60, true)];
    let (inserted, err) = cache.insert(200, batch);
    assert!(err.is_none());
    assert!(inserted.is_empty());
    let snap = cache.load();
    assert_eq!(snap.data.get(&k1).unwrap().version, 5);
    assert!(snap.data.get(&unknown).is_none());
}

#[test]
fn stored_version_is_the_maximum_accepted() {
    let k1 = key(1);
    let mut cache = Cache::new();
    assert!(cache.set_keys(keys_table(&[(b"a", &[k1.clone()])])));
    let (_, err) = cache.insert(100, vec![signed(&k1, 3, 10, true)]);
    assert!(err.is_none());
    let (_, err) = cache.insert(110, vec![signed(&k1, 7, 20, true)]);
    assert!(err.is_none());
    let (ins, err) = cache.insert(120, vec![signed(&k1, 5, 30, true)]);
    assert!(err.is_none());
    assert!(ins.is_empty());
    assert_eq!(cache.load().data.get(&k1).unwrap().version, 7);
}

#[test]
fn set_keys_reports_change_and_retains_relevant_data() {
    let k1 = key(1);
    let k2 = key(2);
    let mut cache = Cache::new();
    let table = keys_table(&[(b"a", &[k1.clone()]), (b"b", &[k2.clone()])]);
    assert!(cache.set_keys(table));
    // The same table again, rebuilt value for value, changes nothing.
    let same = keys_table(&[(b"b", &[k2.clone()]), (b"a", &[k1.clone()])]);
    assert!(!cache.set_keys(same));
    let batch = vec![signed(&k1, 1, 10, true), signed(&k2, 1, 10, true)];
    let (_, err) = cache.insert(100, batch);
    assert!(err.is_none());
    // Dropping account b drops its data with it.
    assert!(cache.set_keys(keys_table(&[(b"a", &[k1.clone()])])));
    let snap = cache.load();
    assert!(snap.data.get(&k1).is_some());
    assert!(snap.data.get(&k2).is_none());
    assert!(snap.keys.contains(&k1));
    assert!(!snap.keys.contains(&k2));
}

#[test]
fn set_local_signs_fresh_versions() {
    let k = key(3);
    let mut cache = Cache::new();
    // With the key not yet interesting, only the identity is stored.
    assert!(cache.set_local(50, local_for(&k)).is_none());
    assert!(cache.set_keys(keys_table(&[(b"me", &[k.clone()])])));
    let first = cache.set_local(60, local_for(&k)).unwrap();
    assert_eq!(first.version, 1);
    assert_eq!(first.timestamp, 60);
    assert_eq!(first.signature, compute_tag(&k, &first.payload));
    // Each call re-signs one version higher, as a liveness signal.
    let second = cache.set_local(70, local_for(&k)).unwrap();
    assert_eq!(second.version, 2);
    assert_eq!(cache.load().data.get(&k).unwrap().version, 2);
}

#[test]
fn loaded_snapshot_is_immutable() {
    let k1 = key(1);
    let mut cache = Cache::new();
    assert!(cache.set_keys(keys_table(&[(b"a", &[k1.clone()])])));
    let before = cache.load();
    let (_, err) = cache.insert(100, vec![signed(&k1, 1, 10, true)]);
    assert!(err.is_none());
    assert!(before.data.get(&k1).is_none());
    assert!(cache.load().data.get(&k1).is_some());
}

#[test]
fn snapshot_is_new_judgement() {
    let k1 = key(1);
    let unknown = key(9);
    let mut cache = Cache::new();
    assert!(cache.set_keys(keys_table(&[(b"a", &[k1.clone()])])));
    let (_, err) = cache.insert(100, vec![signed(&k1, 5, 10, true)]);
    assert!(err.is_none());
    let snap = cache.load();
    assert!(snap.is_new(&signed(&k1, 6, 20, true)));
    assert!(!snap.is_new(&signed(&k1, 5, 20, true)));
    assert!(!snap.is_new(&signed(&unknown, 1, 20, true)));
}

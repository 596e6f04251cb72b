use node_caches::account_data::{AccountData, LocalData};
use node_caches::account_data::{encode_versioned, sign_account_data};
use node_caches::keyset::KeySet;
use node_caches::kvmap::KvMap;
use node_caches::sig::{compute_tag, key_from_seed, u64_to_le_bytes, verify_signature};
use node_caches::snapshot::CacheSnapshot;
use node_caches::split_storage::{RpcSplitStorageError, RpcSplitStorageRequest};
use node_caches::test_utils::{
    convert_boot_nodes, expected_routing_tables, peer_id_from_seed, vec_ref_to_str, GetInfo,
    MockPeerManagerAdapter, PeerId, StopSignal, LOOPBACK_IP,
};
use node_caches::tier1::{NetworkState, ValidatorConfig};

#[test]
fn tag_has_its_exact_value() {
    let empty: Vec<u8> = Vec::new();
    assert_eq!(compute_tag(&empty, &empty), 0xaf64274c86026bfd);
    assert_eq!(compute_tag(&vec![1], &vec![2, 3]), 0xb8b93f7901221e49);
}

#[test]
fn signature_verifies_only_for_its_inputs() {
    let key = vec![1, 2, 3];
    let payload = vec![4, 5, 6];
    let tag = compute_tag(&key, &payload);
    assert!(verify_signature(&key, &payload, tag));
    assert!(!verify_signature(&key, &payload, tag.wrapping_add(1)));
    assert!(!verify_signature(&vec![1, 2], &payload, tag));
    assert!(!verify_signature(&key, &vec![4, 5], tag));
}

#[test]
fn little_endian_bytes_exact() {
    assert_eq!(
        u64_to_le_bytes(0x0102030405060708),
        vec![8, 7, 6, 5, 4, 3, 2, 1]
    );
    assert_eq!(u64_to_le_bytes(0), vec![0; 8]);
}

#[test]
fn encoding_is_deterministic_and_field_sensitive() {
    let data = AccountData {
        peer_id: None,
        epoch_id: vec![1],
        account_id: vec![2],
        peers: vec![],
    };
    let key = vec![9];
    let a = encode_versioned(&data, &key, 3, 4);
    let b = encode_versioned(&data, &key, 3, 4);
    assert_eq!(a, b);
    let c = encode_versioned(&data, &key, 4, 4);
    assert_ne!(a, c);
    // presence byte of peer_id, then each field length-prefixed.
    assert_eq!(a[0], 0);
    assert_eq!(&a[1..9], &[1, 0, 0, 0, 0, 0, 0, 0]);
    assert_eq!(a[9], 1);
}

#[test]
fn signing_produces_a_verifying_record() {
    let local = LocalData {
        signer_key: vec![7, 7],
        data: AccountData {
            peer_id: Some(vec![1]),
            epoch_id: vec![2],
            account_id: vec![3],
            peers: vec![],
        },
    };
    let d = sign_account_data(&local, 5, 1234);
    assert_eq!(d.version, 5);
    assert_eq!(d.timestamp, 1234);
    assert_eq!(d.account_key, vec![7, 7]);
    assert!(verify_signature(&d.account_key, &d.payload, d.signature));
}

#[test]
fn seed_key_is_deterministic() {
    let a = key_from_seed(&b"a".to_vec());
    assert_eq!(a, vec![20, 218, 28, 182, 7, 99, 154, 9]);
    assert_eq!(peer_id_from_seed("a").key, a);
    assert_ne!(peer_id_from_seed("b").key, a);
}

#[test]
fn boot_nodes_conversion() {
    let nodes = convert_boot_nodes(vec![("alice", 24567), ("bob", 24568)]);
    assert_eq!(nodes.len(), 2);
    assert_eq!(nodes[0].id.key, peer_id_from_seed("alice").key);
    assert_eq!(nodes[0].ip, LOOPBACK_IP);
    assert_eq!(nodes[0].port, 24567);
    assert_eq!(nodes[1].id.key, peer_id_from_seed("bob").key);
    assert_eq!(nodes[1].port, 24568);
}

#[test]
fn str_vectors_become_owned() {
    let out = vec_ref_to_str(vec!["x", "yz", ""]);
    assert_eq!(out, vec!["x".to_string(), "yz".to_string(), String::new()]);
}

#[test]
fn stop_signal_flavours() {
    assert!(!StopSignal::new().should_panic);
    assert!(StopSignal::should_panic().should_panic);
    let _info = GetInfo {};
}

#[test]
fn mock_adapter_queues_in_order() {
    let mut adapter = MockPeerManagerAdapter::new();
    assert!(adapter.pop().is_none());
    adapter.do_send(vec![1]);
    adapter.do_send(vec![2]);
    assert_eq!(adapter.pop(), Some(vec![1]));
    assert_eq!(adapter.pop(), Some(vec![2]));
    assert!(adapter.pop().is_none());
}

#[test]
fn split_storage_error_message() {
    let _req = RpcSplitStorageRequest {};
    let err = RpcSplitStorageError::internal_error("node busy".to_string());
    assert_eq!(err.message().as_str(), "node busy");
}

#[test]
fn tier1_validator_config_requires_membership() {
    let key = vec![3; 4];
    let mut table: KvMap<KeySet> = KvMap::new();
    let mut set = KeySet::new();
    set.insert_if_absent(key.clone());
    table.insert(b"val".to_vec(), set);
    let mut snapshot_cache = node_caches::accounts_cache::Cache::new();
    assert!(snapshot_cache.set_keys(table));
    let snap: CacheSnapshot = snapshot_cache.load();

    let state = NetworkState {
        tier1_enabled: true,
        validator: Some(ValidatorConfig {
            account_id: b"val".to_vec(),
            public_key: key.clone(),
        }),
    };
    assert!(state.tier1_validator_config(&snap).is_some());

    let disabled = NetworkState {
        tier1_enabled: false,
        validator: state.validator,
    };
    assert!(disabled.tier1_validator_config(&snap).is_none());

    let stranger = NetworkState {
        tier1_enabled: true,
        validator: Some(ValidatorConfig {
            account_id: b"other".to_vec(),
            public_key: key,
        }),
    };
    assert!(stranger.tier1_validator_config(&snap).is_none());
}

#[test]
fn routing_tables_compare_up_to_hop_order() {
    let p = |n: u8| PeerId { key: vec![n] };
    let current = vec![
        (p(1), vec![p(2), p(3)]),
        (p(2), vec![p(1)]),
    ];
    let expected_ok = vec![
        (p(2), vec![p(1)]),
        (p(1), vec![p(3), p(2)]),
    ];
    assert!(expected_routing_tables(current, expected_ok));
    let current = vec![(p(1), vec![p(2), p(3)])];
    let expected_bad = vec![(p(1), vec![p(2)])];
    assert!(!expected_routing_tables(current, expected_bad));
}

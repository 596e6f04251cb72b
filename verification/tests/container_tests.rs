use node_caches::bytes::{bytes_eq, clone_bytes};
use node_caches::keyset::KeySet;
use node_caches::kvmap::KvMap;

#[test]
fn kvmap_insert_get_remove() {
    let mut m: KvMap<u32> = KvMap::new();
    assert!(m.get(&vec![1]).is_none());
    m.insert(vec![1], 10);
    m.insert(vec![2], 20);
    assert_eq!(m.get(&vec![1]), Some(&10));
    assert_eq!(m.get(&vec![2]), Some(&20));
    assert_eq!(m.len(), 2);
    m.insert(vec![1], 11);
    assert_eq!(m.get(&vec![1]), Some(&11));
    assert_eq!(m.len(), 2);
    assert_eq!(m.remove(&vec![1]), Some(11));
    assert!(m.get(&vec![1]).is_none());
    assert_eq!(m.remove(&vec![1]), None);
    assert_eq!(m.len(), 1);
}

#[test]
fn keyset_membership_and_equality() {
    let mut a = KeySet::new();
    a.insert_if_absent(vec![1]);
    a.insert_if_absent(vec![2]);
    a.insert_if_absent(vec![1]);
    assert_eq!(a.len(), 2);
    assert!(a.contains(&vec![1]));
    assert!(!a.contains(&vec![3]));
    let mut b = KeySet::new();
    b.insert_if_absent(vec![2]);
    b.insert_if_absent(vec![1]);
    assert!(a.set_eq(&b));
    b.insert_if_absent(vec![3]);
    assert!(!a.set_eq(&b));
    let c = a.duplicate();
    assert!(c.set_eq(&a));
}

#[test]
fn byte_helpers() {
    let x = vec![1, 2, 3];
    assert!(bytes_eq(&x, &vec![1, 2, 3]));
    assert!(!bytes_eq(&x, &vec![1, 2]));
    assert!(!bytes_eq(&x, &vec![1, 2, 4]));
    let y = clone_bytes(&x);
    assert_eq!(x, y);
}

use crate::account_data::{
    clone_local, clone_signed, sign_account_data, signature_ok, signed_of, LocalData, LocalDataV,
    SignedAccountData, SignedAccountDataV,
};
use crate::bytes::{bytes_eq, clone_bytes};
use crate::keyset::KeySet;
use crate::kvmap::KvMap;
use vstd::prelude::*;

verus! {

/// An immutable view of everything the accounts-data cache knows: which
/// account keys matter, per account and flattened, the latest signed data
/// per key, and the local node's signing identity if it has one.
pub struct CacheSnapshot {
    /// Account id to the account keys that matter for it.
    pub keys_by_id: KvMap<KeySet>,
    /// Every account key that matters, flattened.
    pub keys: KeySet,
    /// Latest signed data per account key; its keys stay inside `keys`.
    pub data: KvMap<SignedAccountData>,
    /// The local node's signing identity and advertised data.
    pub local: Option<LocalData>,
}

pub ghost struct SnapshotV {
    pub keys_by_id: Map<Seq<u8>, Set<Seq<u8>>>,
    pub keys: Set<Seq<u8>>,
    pub data: Map<Seq<u8>, SignedAccountDataV>,
    pub local: Option<LocalDataV>,
}

impl View for CacheSnapshot {
    type V = SnapshotV;

    open spec fn view(&self) -> SnapshotV {
        SnapshotV {
            keys_by_id: self.keys_by_id@,
            keys: self.keys@,
            data: self.data@,
            local: match self.local {
                Some(ref l) => Some(l@),
                None => None,
            },
        }
    }
}

/// Whether `d` is interesting: its key matters, and it is strictly newer
/// than whatever is stored for that key.
pub open spec fn is_new_spec(s: SnapshotV, d: SignedAccountDataV) -> bool {
    s.keys.contains(d.account_key) && (!s.data.contains_key(d.account_key) || s.data[
        d.account_key
    ].version < d.version)
}

/// What `try_insert` stores and returns: nothing if `d` is not new; a
/// freshly signed rebuild of the local data, one version above `d`, if `d`
/// would override the local node's own record; otherwise `d` itself.
pub open spec fn try_insert_result(s: SnapshotV, now: u64, d: SignedAccountDataV) -> Option<
    SignedAccountDataV,
> {
    if !is_new_spec(s, d) {
        None
    } else {
        match s.local {
            Some(l) => if l.signer_key == d.account_key {
                Some(signed_of(l, (d.version + 1) as u64, now))
            } else {
                Some(d)
            },
            None => Some(d),
        }
    }
}

/// The snapshot after `try_insert`.
pub open spec fn try_insert_snapshot(s: SnapshotV, now: u64, d: SignedAccountDataV) -> SnapshotV {
    match try_insert_result(s, now, d) {
        None => s,
        Some(x) => SnapshotV { data: s.data.insert(x.account_key, x), ..s },
    }
}

/// What `set_local` returns: the local data signed one version above the
/// stored record (or at version one), provided the local key matters.
pub open spec fn set_local_result(s: SnapshotV, now: u64, l: LocalDataV) -> Option<
    SignedAccountDataV,
> {
    if s.keys.contains(l.signer_key) {
        let prev: u64 = if s.data.contains_key(l.signer_key) {
            s.data[l.signer_key].version
        } else {
            0
        };
        Some(signed_of(l, (prev + 1) as u64, now))
    } else {
        None
    }
}

/// The snapshot after `set_local`: the identity is stored unconditionally,
/// the freshly signed record only if the key matters.
pub open spec fn set_local_snapshot(s: SnapshotV, now: u64, l: LocalDataV) -> SnapshotV {
    match set_local_result(s, now, l) {
        None => SnapshotV { local: Some(l), ..s },
        Some(x) => SnapshotV { local: Some(l), data: s.data.insert(x.account_key, x), ..s },
    }
}

impl CacheSnapshot {
    /// Containers well formed; stored data sits only under keys that matter,
    /// under its own account key, with a signature that verifies.
    pub open spec fn wf(self) -> bool {
        &&& self.keys_by_id.wf()
        &&& forall|i: int|
            0 <= i < self.keys_by_id.entries@.len() ==> (#[trigger] self.keys_by_id.entries@[
                i
            ].1).wf()
        &&& self.keys.wf()
        &&& self.data.wf()
        &&& forall|k: Seq<u8>| #[trigger] self.data@.contains_key(k) ==> self.keys@.contains(k)
        &&& forall|k: Seq<u8>| #[trigger]
            self.data@.contains_key(k) ==> self.data@[k].account_key == k && signature_ok(
                self.data@[k],
            )
    }

    pub fn new() -> (r: Self)
        ensures
            r.wf(),
            r@.keys_by_id == Map::<Seq<u8>, Set<Seq<u8>>>::empty(),
            r@.keys == Set::<Seq<u8>>::empty(),
            r@.data == Map::<Seq<u8>, SignedAccountDataV>::empty(),
            r@.local is None,
    {
        CacheSnapshot {
            keys_by_id: KvMap::new(),
            keys: KeySet::new(),
            data: KvMap::new(),
            local: None,
        }
    }

    /// Whether `d` is newer than anything stored for its key, and its key
    /// matters at all.
    pub fn is_new(&self, d: &SignedAccountData) -> (r: bool)
        requires
            self.wf(),
        ensures
            r == is_new_spec(self@, d@),
    {
        if !self.keys.contains(&d.account_key) {
            return false;
        }
        match self.data.get(&d.account_key) {
            Some(prev) => prev.version < d.version,
            None => true,
        }
    }

    /// Whether `key` is one of the keys that matter for `account_id`.
    pub fn contains_account_key(&self, account_id: &Vec<u8>, key: &Vec<u8>) -> (r: bool)
        requires
            self.wf(),
        ensures
            r == (self@.keys_by_id.contains_key(account_id@) && self@.keys_by_id[
                account_id@
            ].contains(key@)),
    {
        match self.keys_by_id.get(account_id) {
            Some(ks) => ks.contains(key),
            None => false,
        }
    }

    /// Stores `d` if it is new. When `d` carries the local signer's own key,
    /// a rebuilt record one version above `d`, freshly signed at `now`, is
    /// stored instead, so the local node re-overtakes any echo of a previous
    /// run. Returns what was stored, for rebroadcast.
    pub fn try_insert(&mut self, now: u64, d: SignedAccountData) -> (r: Option<SignedAccountData>)
        requires
            old(self).wf(),
            signature_ok(d@),
            d@.version < u64::MAX,
        ensures
            final(self).wf(),
            final(self)@ == try_insert_snapshot(old(self)@, now, d@),
            match r {
                Some(x) => try_insert_result(old(self)@, now, d@) == Some(x@),
                None => try_insert_result(old(self)@, now, d@) is None,
            },
            forall|k: Seq<u8>| #[trigger]
                old(self)@.data.contains_key(k) ==> final(self)@.data.contains_key(k)
                    && final(self)@.data[k].version >= old(self)@.data[k].version,
    {
        if !self.is_new(&d) {
            return None;
        }
        let use_local = match &self.local {
            Some(l) => bytes_eq(&l.signer_key, &d.account_key),
            None => false,
        };
        let ins: SignedAccountData = if use_local {
            let version = d.version + 1;
            match &self.local {
                Some(l) => sign_account_data(l, version, now),
                None => d,
            }
        } else {
            d
        };
        let ret = clone_signed(&ins);
        let key = clone_bytes(&ins.account_key);
        self.data.insert(key, ins);
        Some(ret)
    }

    /// Stores the local signing identity. If its key matters, also composes
    /// and stores a record one version above the stored one (or at version
    /// one), signed at `now`, and returns it for rebroadcast.
    pub fn set_local(&mut self, now: u64, local: LocalData) -> (r: Option<SignedAccountData>)
        requires
            old(self).wf(),
            old(self)@.data.contains_key(local@.signer_key) ==> old(self)@.data[
                local@.signer_key
            ].version < u64::MAX,
        ensures
            final(self).wf(),
            final(self)@ == set_local_snapshot(old(self)@, now, local@),
            match r {
                Some(x) => set_local_result(old(self)@, now, local@) == Some(x@),
                None => set_local_result(old(self)@, now, local@) is None,
            },
    {
        let r = if self.keys.contains(&local.signer_key) {
            let prev: u64 = match self.data.get(&local.signer_key) {
                Some(p) => p.version,
                None => 0,
            };
            let d = sign_account_data(&local, prev + 1, now);
            let ret = clone_signed(&d);
            let key = clone_bytes(&d.account_key);
            self.data.insert(key, d);
            Some(ret)
        } else {
            None
        };
        self.local = Some(local);
        r
    }

    /// A fresh snapshot with the same contents.
    pub fn duplicate(&self) -> (r: Self)
        requires
            self.wf(),
        ensures
            r.wf(),
            r@ == self@,
    {
        let mut keys_by_id: KvMap<KeySet> = KvMap::new();
        let mut i: usize = 0;
        while i < self.keys_by_id.entries.len()
            invariant
                self.wf(),
                i <= self.keys_by_id.entries@.len(),
                keys_by_id.wf(),
                keys_by_id@ == crate::kvmap::entries_map(self.keys_by_id.entries@.take(i as int)),
                forall|j: int|
                    0 <= j < keys_by_id.entries@.len() ==> (#[trigger] keys_by_id.entries@[
                        j
                    ].1).wf(),
            decreases self.keys_by_id.entries@.len() - i,
        {
            let ghost prev = keys_by_id.entries@;
            let entry_key = clone_bytes(&self.keys_by_id.entries[i].0);
            let entry_val = self.keys_by_id.entries[i].1.duplicate();
            proof {
                let src = self.keys_by_id.entries@;
                let tk = src.take(i as int);
                crate::kvmap::lemma_index_of_key(tk, src[i as int].0@);
                if keys_by_id@.contains_key(src[i as int].0@) {
                    let idx = crate::kvmap::index_of_key(tk, src[i as int].0@);
                    assert(tk[idx].0@ == src[i as int].0@);
                    assert(src[idx].0@ == src[i as int].0@);
                    assert(false);
                }
            }
            keys_by_id.insert(entry_key, entry_val);
            proof {
                assert(self.keys_by_id.entries@.take(i + 1).drop_last() =~= self
                    .keys_by_id
                    .entries@
                    .take(i as int));
                assert forall|j: int|
                    0 <= j < keys_by_id.entries@.len() implies (#[trigger] keys_by_id.entries@[
                    j
                ].1).wf() by {
                    if j < prev.len() {
                        assert(prev[j].1.wf());
                        assert(keys_by_id.entries@[j] == prev[j]);
                    }
                }
            }
            i += 1;
        }
        proof {
            assert(self.keys_by_id.entries@.take(self.keys_by_id.entries@.len() as int) =~= self
                .keys_by_id
                .entries@);
        }
        let mut data: KvMap<SignedAccountData> = KvMap::new();
        let mut j: usize = 0;
        while j < self.data.entries.len()
            invariant
                self.wf(),
                j <= self.data.entries@.len(),
                data.wf(),
                data@ == crate::kvmap::entries_map(self.data.entries@.take(j as int)),
            decreases self.data.entries@.len() - j,
        {
            let entry_key = clone_bytes(&self.data.entries[j].0);
            let entry_val = clone_signed(&self.data.entries[j].1);
            data.insert(entry_key, entry_val);
            proof {
                assert(self.data.entries@.take(j + 1).drop_last() =~= self.data.entries@.take(
                    j as int,
                ));
            }
            j += 1;
        }
        proof {
            assert(self.data.entries@.take(self.data.entries@.len() as int) =~= self
                .data
                .entries@);
        }
        let local = match &self.local {
            Some(l) => Some(clone_local(l)),
            None => None,
        };
        let r = CacheSnapshot { keys_by_id, keys: self.keys.duplicate(), data, local };
        proof {
            assert(r@.data == self@.data);
            assert(r@.keys == self@.keys);
            assert forall|k: Seq<u8>| #[trigger] r.data@.contains_key(k) implies r.keys@.contains(
                k,
            ) by {
                assert(self.data@.contains_key(k));
            }
            assert forall|k: Seq<u8>| #[trigger]
                r.data@.contains_key(k) implies r.data@[k].account_key == k && signature_ok(
                r.data@[k],
            ) by {
                assert(self.data@.contains_key(k));
            }
        }
        r
    }
}

} // verus!

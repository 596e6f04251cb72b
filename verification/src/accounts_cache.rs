use crate::account_data::{
    clone_signed, signature_ok, LocalData, SignedAccountData, SignedAccountDataV,
    MAX_ACCOUNT_DATA_SIZE_BYTES,
};
use crate::bytes::clone_bytes;
use crate::keyset::{items_set, KeySet};
use crate::kvmap::{entries_map, index_of_key, lemma_entry_key_present, lemma_index_of_key,
    lemma_entries_map_len, KvMap};
use crate::snapshot::{
    is_new_spec, set_local_result, set_local_snapshot, try_insert_result, try_insert_snapshot,
    CacheSnapshot, SnapshotV,
};
use vstd::prelude::*;

verus! {

/// Why a batch of signed accounts data was rejected or cut short.
#[derive(Clone, Copy, Debug, PartialEq, Eq, Structural)]
pub enum Error {
    /// An element of the batch failed signature verification; everything
    /// verified before it was still committed.
    InvalidSignature,
    /// An element's payload exceeded the size cap; the whole batch was
    /// rejected.
    DataTooLarge,
    /// Two elements of the batch carried the same account key; the whole
    /// batch was rejected.
    SingleAccountMultipleData,
}

/// The views of a list of signed records.
pub open spec fn views_of(s: Seq<SignedAccountData>) -> Seq<SignedAccountDataV> {
    s.map_values(|d: SignedAccountData| d@)
}

/// What the synchronous pre-filter concluded: a reason to reject the whole
/// batch, or the interesting entries in batch order.
pub ghost struct PrefilterV {
    pub rejected: Option<Error>,
    pub selected: Seq<SignedAccountDataV>,
}

/// Walks the batch in order: an oversized payload rejects the whole batch;
/// a key the batch already carried rejects the whole batch; of the rest,
/// the entries that are new against the snapshot are kept.
pub open spec fn prefilter_rec(
    s: SnapshotV,
    batch: Seq<SignedAccountDataV>,
    seen: Set<Seq<u8>>,
    acc: Seq<SignedAccountDataV>,
) -> PrefilterV
    decreases batch.len(),
{
    if batch.len() == 0 {
        PrefilterV { rejected: None, selected: acc }
    } else {
        let d = batch.first();
        if d.payload.len() > MAX_ACCOUNT_DATA_SIZE_BYTES {
            PrefilterV { rejected: Some(Error::DataTooLarge), selected: Seq::empty() }
        } else if seen.contains(d.account_key) {
            PrefilterV { rejected: Some(Error::SingleAccountMultipleData), selected: Seq::empty() }
        } else {
            prefilter_rec(
                s,
                batch.drop_first(),
                seen.insert(d.account_key),
                if is_new_spec(s, d) {
                    acc.push(d)
                } else {
                    acc
                },
            )
        }
    }
}

/// The pre-filter over a whole batch.
pub open spec fn prefilter(s: SnapshotV, batch: Seq<SignedAccountDataV>) -> PrefilterV {
    prefilter_rec(s, batch, Set::empty(), Seq::empty())
}

/// The longest prefix whose signatures all verify: verification stops at
/// the first failure.
pub open spec fn valid_prefix(sel: Seq<SignedAccountDataV>) -> Seq<SignedAccountDataV>
    decreases sel.len(),
{
    if sel.len() == 0 {
        sel
    } else if signature_ok(sel.first()) {
        seq![sel.first()] + valid_prefix(sel.drop_first())
    } else {
        Seq::empty()
    }
}

/// Whether every signature in the list verifies.
pub open spec fn all_valid(sel: Seq<SignedAccountDataV>) -> bool {
    forall|i: int| 0 <= i < sel.len() ==> signature_ok(#[trigger] sel[i])
}

/// The snapshot after trying to insert each entry in order.
pub open spec fn commit_snapshot(s: SnapshotV, now: u64, sel: Seq<SignedAccountDataV>) -> SnapshotV
    decreases sel.len(),
{
    if sel.len() == 0 {
        s
    } else {
        commit_snapshot(try_insert_snapshot(s, now, sel.first()), now, sel.drop_first())
    }
}

/// What those insertions returned, in order: each entry that was stored, as
/// stored (a self-override comes back rebuilt and re-signed).
pub open spec fn commit_inserted(s: SnapshotV, now: u64, sel: Seq<SignedAccountDataV>) -> Seq<
    SignedAccountDataV,
>
    decreases sel.len(),
{
    if sel.len() == 0 {
        Seq::empty()
    } else {
        let rest = commit_inserted(try_insert_snapshot(s, now, sel.first()), now, sel.drop_first());
        match try_insert_result(s, now, sel.first()) {
            Some(x) => seq![x] + rest,
            None => rest,
        }
    }
}

/// The flattened union of the key sets a keys-by-id table holds.
pub open spec fn flat_keys(s: Seq<(Vec<u8>, KeySet)>) -> Set<Seq<u8>>
    decreases s.len(),
{
    if s.len() == 0 {
        Set::empty()
    } else {
        flat_keys(s.drop_last()).union(s.last().1@)
    }
}

/// If the signatures up to `k` verify and the one at `k` does not, the
/// valid prefix is exactly the first `k` entries.
pub proof fn lemma_valid_prefix(sel: Seq<SignedAccountDataV>, k: int)
    requires
        0 <= k <= sel.len(),
        forall|l: int| 0 <= l < k ==> signature_ok(#[trigger] sel[l]),
        k < sel.len() ==> !signature_ok(sel[k]),
    ensures
        valid_prefix(sel) == sel.take(k),
    decreases sel.len(),
{
    if sel.len() == 0 {
        assert(sel.take(0) =~= sel);
    } else if k == 0 {
        if signature_ok(sel.first()) {
            assert(signature_ok(sel[0]));
            assert(false);
        }
        assert(sel.take(0) =~= Seq::<SignedAccountDataV>::empty());
    } else {
        assert(signature_ok(sel[0]));
        let tail = sel.drop_first();
        assert forall|l: int| 0 <= l < k - 1 implies signature_ok(#[trigger] tail[l]) by {
            assert(tail[l] == sel[l + 1]);
        }
        if k - 1 < tail.len() {
            assert(tail[k - 1] == sel[k]);
        }
        lemma_valid_prefix(tail, k - 1);
        assert(seq![sel.first()] + tail.take(k - 1) =~= sel.take(k));
    }
}

/// A property of every batch entry and every accumulated entry holds of
/// every entry the pre-filter keeps; here, that the version leaves room for
/// the self-override's increment.
pub proof fn lemma_prefilter_versions(
    s: SnapshotV,
    batch: Seq<SignedAccountDataV>,
    seen: Set<Seq<u8>>,
    acc: Seq<SignedAccountDataV>,
)
    requires
        forall|i: int| 0 <= i < batch.len() ==> (#[trigger] batch[i]).version < u64::MAX,
        forall|i: int| 0 <= i < acc.len() ==> (#[trigger] acc[i]).version < u64::MAX,
    ensures
        prefilter_rec(s, batch, seen, acc).rejected is None ==> forall|i: int|
            0 <= i < prefilter_rec(s, batch, seen, acc).selected.len() ==> (
            #[trigger] prefilter_rec(s, batch, seen, acc).selected[i]).version < u64::MAX,
    decreases batch.len(),
{
    if batch.len() > 0 {
        let d = batch.first();
        if d.payload.len() > MAX_ACCOUNT_DATA_SIZE_BYTES || seen.contains(d.account_key) {
        } else {
            let acc2 = if is_new_spec(s, d) {
                acc.push(d)
            } else {
                acc
            };
            assert(d == batch[0]);
            assert forall|i: int| 0 <= i < acc2.len() implies (#[trigger] acc2[i]).version
                < u64::MAX by {
                if i < acc.len() {
                    assert(acc[i].version < u64::MAX);
                } else {
                    assert(acc2[i] == d);
                }
            }
            assert forall|i: int|
                0 <= i < batch.drop_first().len() implies (#[trigger] batch.drop_first()[
                i
            ]).version < u64::MAX by {
                assert(batch.drop_first()[i] == batch[i + 1]);
            }
            lemma_prefilter_versions(s, batch.drop_first(), seen.insert(d.account_key), acc2);
        }
    }
}

/// The accounts-data cache: one snapshot, replaced wholesale on update.
/// Readers take their own copy with `load`; writers go through `set_keys`,
/// `set_local` and `insert`.
pub struct Cache {
    pub snapshot: CacheSnapshot,
}

impl Cache {
    pub open spec fn wf(self) -> bool {
        self.snapshot.wf()
    }

    pub fn new() -> (r: Self)
        ensures
            r.wf(),
            r.snapshot@.keys_by_id == Map::<Seq<u8>, Set<Seq<u8>>>::empty(),
            r.snapshot@.keys == Set::<Seq<u8>>::empty(),
            r.snapshot@.data == Map::<Seq<u8>, SignedAccountDataV>::empty(),
            r.snapshot@.local is None,
    {
        Cache { snapshot: CacheSnapshot::new() }
    }

    /// The current snapshot, as a fresh copy the caller owns.
    pub fn load(&self) -> (r: CacheSnapshot)
        requires
            self.wf(),
        ensures
            r.wf(),
            r@ == self.snapshot@,
    {
        self.snapshot.duplicate()
    }

    /// Stores the local signing identity, composing and returning a freshly
    /// signed record when the local key matters; see the snapshot operation.
    pub fn set_local(&mut self, now: u64, local: LocalData) -> (r: Option<SignedAccountData>)
        requires
            old(self).wf(),
            old(self).snapshot@.data.contains_key(local@.signer_key) ==> old(self).snapshot@.data[
                local@.signer_key
            ].version < u64::MAX,
        ensures
            final(self).wf(),
            final(self).snapshot@ == set_local_snapshot(old(self).snapshot@, now, local@),
            match r {
                Some(x) => set_local_result(old(self).snapshot@, now, local@) == Some(x@),
                None => set_local_result(old(self).snapshot@, now, local@) is None,
            },
    {
        self.snapshot.set_local(now, local)
    }

    /// Replaces the set of accounts that matter. If the new table equals the
    /// stored one nothing changes and the call reports `false`; otherwise
    /// the flat key set is recomputed, data under keys that no longer matter
    /// is dropped, and the call reports `true`.
    pub fn set_keys(&mut self, keys_by_id: KvMap<KeySet>) -> (r: bool)
        requires
            old(self).wf(),
            keys_by_id.wf(),
            forall|i: int|
                0 <= i < keys_by_id.entries@.len() ==> (#[trigger] keys_by_id.entries@[i].1).wf(),
        ensures
            final(self).wf(),
            r == (keys_by_id@ != old(self).snapshot@.keys_by_id),
            !r ==> *final(self) == *old(self),
            r ==> final(self).snapshot@ == (SnapshotV {
                keys_by_id: keys_by_id@,
                keys: flat_keys(keys_by_id.entries@),
                data: old(self).snapshot@.data.restrict(flat_keys(keys_by_id.entries@)),
                local: old(self).snapshot@.local,
            }),
    {
        if maps_of_sets_eq(&keys_by_id, &self.snapshot.keys_by_id) {
            return false;
        }
        let mut flat = KeySet::new();
        let mut i: usize = 0;
        while i < keys_by_id.entries.len()
            invariant
                i <= keys_by_id.entries@.len(),
                flat.wf(),
                flat@ == flat_keys(keys_by_id.entries@.take(i as int)),
            decreases keys_by_id.entries@.len() - i,
        {
            let ks = &keys_by_id.entries[i].1;
            let mut j: usize = 0;
            while j < ks.items.len()
                invariant
                    j <= ks.items@.len(),
                    flat.wf(),
                    flat@ == flat_keys(keys_by_id.entries@.take(i as int)).union(
                        items_set(ks.items@.take(j as int)),
                    ),
                    i < keys_by_id.entries@.len(),
                    ks == &keys_by_id.entries[i as int].1,
                decreases ks.items@.len() - j,
            {
                flat.insert_if_absent(clone_bytes(&ks.items[j]));
                proof {
                    assert(ks.items@.take(j + 1).drop_last() =~= ks.items@.take(j as int));
                    assert(flat@ =~= flat_keys(keys_by_id.entries@.take(i as int)).union(
                        items_set(ks.items@.take(j + 1)),
                    ));
                }
                j += 1;
            }
            proof {
                assert(ks.items@.take(ks.items@.len() as int) =~= ks.items@);
                assert(keys_by_id.entries@.take(i + 1).drop_last() =~= keys_by_id.entries@.take(
                    i as int,
                ));
                assert(keys_by_id.entries@.take(i + 1).last() == keys_by_id.entries@[i as int]);
            }
            i += 1;
        }
        proof {
            assert(keys_by_id.entries@.take(keys_by_id.entries@.len() as int)
                =~= keys_by_id.entries@);
        }
        let mut data: KvMap<SignedAccountData> = KvMap::new();
        let mut j: usize = 0;
        while j < self.snapshot.data.entries.len()
            invariant
                j <= self.snapshot.data.entries@.len(),
                self.wf(),
                *self == *old(self),
                flat.wf(),
                data.wf(),
                data@ == entries_map(self.snapshot.data.entries@.take(j as int)).restrict(flat@),
            decreases self.snapshot.data.entries@.len() - j,
        {
            let ghost src = self.snapshot.data.entries@;
            let keep = flat.contains(&self.snapshot.data.entries[j].0);
            if keep {
                let entry_key = clone_bytes(&self.snapshot.data.entries[j].0);
                let entry_val = clone_signed(&self.snapshot.data.entries[j].1);
                data.insert(entry_key, entry_val);
            }
            proof {
                assert(src.take(j + 1).drop_last() =~= src.take(j as int));
                assert(src.take(j + 1).last() == src[j as int]);
                assert(data@ =~= entries_map(src.take(j + 1)).restrict(flat@));
            }
            j += 1;
        }
        proof {
            assert(self.snapshot.data.entries@.take(self.snapshot.data.entries@.len() as int)
                =~= self.snapshot.data.entries@);
        }
        self.snapshot.keys_by_id = keys_by_id;
        self.snapshot.keys = flat;
        self.snapshot.data = data;
        proof {
            assert forall|k: Seq<u8>| #[trigger]
                self.snapshot.data@.contains_key(k) implies self.snapshot.keys@.contains(k) by {}
            assert forall|k: Seq<u8>| #[trigger]
                self.snapshot.data@.contains_key(
                    k,
                ) implies self.snapshot.data@[k].account_key == k && signature_ok(
                self.snapshot.data@[k],
            ) by {
                assert(old(self).snapshot@.data.contains_key(k));
            }
        }
        true
    }

    /// The synchronous pre-filter and the verification pass over a batch:
    /// selects the new and interesting entries in batch order, then checks
    /// signatures until the first failure. Returns the entries that passed
    /// and the error, if any; a rejection returns an empty list.
    #[verifier::rlimit(30)]
    pub fn verify(&self, batch: Vec<SignedAccountData>) -> (r: (
        Vec<SignedAccountData>,
        Option<Error>,
    ))
        requires
            self.wf(),
        ensures
            ({
                let pf = prefilter(self.snapshot@, views_of(batch@));
                match pf.rejected {
                    Some(e) => r.0@.len() == 0 && r.1 == Some(e),
                    None => {
                        &&& views_of(r.0@) == valid_prefix(pf.selected)
                        &&& (r.1 is None <==> all_valid(pf.selected))
                        &&& (r.1 is None || r.1 == Some(Error::InvalidSignature))
                        &&& all_valid(views_of(r.0@))
                    },
                }
            }),
    {
        let ghost snap = self.snapshot@;
        let ghost bv = views_of(batch@);
        let mut seen = KeySet::new();
        let mut selected: Vec<SignedAccountData> = Vec::new();
        proof {
            assert(bv.skip(0) =~= bv);
            assert(views_of(selected@) =~= Seq::<SignedAccountDataV>::empty());
        }
        let mut i: usize = 0;
        while i < batch.len()
            invariant
                self.wf(),
                snap == self.snapshot@,
                bv == views_of(batch@),
                i <= batch@.len(),
                seen.wf(),
                prefilter(snap, bv) == prefilter_rec(
                    snap,
                    bv.skip(i as int),
                    seen@,
                    views_of(selected@),
                ),
            decreases batch@.len() - i,
        {
            let d = &batch[i];
            proof {
                assert(bv.skip(i as int).first() == bv[i as int]);
                assert(bv.skip(i as int).drop_first() =~= bv.skip(i + 1));
                assert(bv[i as int] == batch@[i as int]@);
            }
            if d.payload.len() > MAX_ACCOUNT_DATA_SIZE_BYTES {
                return (Vec::new(), Some(Error::DataTooLarge));
            }
            if seen.contains(&d.account_key) {
                return (Vec::new(), Some(Error::SingleAccountMultipleData));
            }
            seen.insert_if_absent(clone_bytes(&d.account_key));
            if self.snapshot.is_new(d) {
                let ghost before = selected@;
                selected.push(clone_signed(d));
                proof {
                    assert(views_of(selected@) =~= views_of(before).push(bv[i as int]));
                }
            }
            i += 1;
        }
        proof {
            assert(bv.skip(bv.len() as int) =~= Seq::<SignedAccountDataV>::empty());
            assert(prefilter(snap, bv) == (PrefilterV {
                rejected: None,
                selected: views_of(selected@),
            }));
        }
        let ghost sel = views_of(selected@);
        let mut k: usize = 0;
        while k < selected.len()
            invariant
                k <= selected@.len(),
                sel == views_of(selected@),
                prefilter(self.snapshot@, views_of(batch@)) == (PrefilterV {
                    rejected: None,
                    selected: sel,
                }),
                forall|l: int| 0 <= l < k ==> signature_ok(#[trigger] sel[l]),
            decreases selected@.len() - k,
        {
            let ok = crate::sig::verify_signature(
                &selected[k].account_key,
                &selected[k].payload,
                selected[k].signature,
            );
            proof {
                assert(sel[k as int] == selected@[k as int]@);
            }
            if !ok {
                proof {
                    lemma_valid_prefix(sel, k as int);
                }
                selected.truncate(k);
                proof {
                    assert(views_of(selected@) =~= sel.take(k as int));
                }
                return (selected, Some(Error::InvalidSignature));
            }
            k += 1;
        }
        proof {
            lemma_valid_prefix(sel, sel.len() as int);
            assert(sel.take(sel.len() as int) =~= sel);
        }
        (selected, None)
    }

    /// Filters and verifies the batch, then commits every entry that passed,
    /// in batch order, even when verification stopped early: committing the
    /// successes keeps one bad signature from erasing a whole broadcast.
    /// Returns what was stored, for rebroadcast, and the error, if any.
    #[verifier::rlimit(30)]
    pub fn insert(&mut self, now: u64, batch: Vec<SignedAccountData>) -> (r: (
        Vec<SignedAccountData>,
        Option<Error>,
    ))
        requires
            old(self).wf(),
            forall|i: int| 0 <= i < batch@.len() ==> (#[trigger] batch@[i])@.version < u64::MAX,
        ensures
            final(self).wf(),
            ({
                let pf = prefilter(old(self).snapshot@, views_of(batch@));
                match pf.rejected {
                    Some(e) => {
                        &&& r.1 == Some(e)
                        &&& r.0@.len() == 0
                        &&& final(self).snapshot@ == old(self).snapshot@
                    },
                    None => {
                        let vp = valid_prefix(pf.selected);
                        &&& final(self).snapshot@ == commit_snapshot(old(self).snapshot@, now, vp)
                        &&& views_of(r.0@) == commit_inserted(old(self).snapshot@, now, vp)
                        &&& (r.1 is None <==> all_valid(pf.selected))
                        &&& (r.1 is None || r.1 == Some(Error::InvalidSignature))
                    },
                }
            }),
    {
        let ghost snap0 = self.snapshot@;
        let ghost bv = views_of(batch@);
        proof {
            assert forall|i: int| 0 <= i < bv.len() implies (#[trigger] bv[i]).version
                < u64::MAX by {
                assert(bv[i] == batch@[i]@);
            }
            lemma_prefilter_versions(snap0, bv, Set::empty(), Seq::empty());
        }
        let (selected, err) = self.verify(batch);
        let ghost vp = views_of(selected@);
        proof {
            if prefilter(snap0, bv).rejected is None {
                let pfsel = prefilter(snap0, bv).selected;
                lemma_valid_prefix_is_prefix(pfsel);
                assert forall|l: int| 0 <= l < vp.len() implies (#[trigger] vp[l]).version
                    < u64::MAX by {
                    assert(vp[l] == valid_prefix(pfsel)[l]);
                    assert(vp[l] == pfsel[l]);
                }
            }
            assert(vp.skip(0) =~= vp);
        }
        let mut inserted: Vec<SignedAccountData> = Vec::new();
        let mut i: usize = 0;
        while i < selected.len()
            invariant
                i <= selected@.len(),
                self.wf(),
                vp == views_of(selected@),
                commit_snapshot(snap0, now, vp) == commit_snapshot(
                    self.snapshot@,
                    now,
                    vp.skip(i as int),
                ),
                commit_inserted(snap0, now, vp) =~= views_of(inserted@) + commit_inserted(
                    self.snapshot@,
                    now,
                    vp.skip(i as int),
                ),
                forall|l: int| 0 <= l < vp.len() ==> signature_ok(#[trigger] vp[l]),
                forall|l: int| 0 <= l < vp.len() ==> (#[trigger] vp[l]).version < u64::MAX,
            decreases selected@.len() - i,
        {
            let d = clone_signed(&selected[i]);
            proof {
                assert(vp[i as int] == selected@[i as int]@);
                assert(vp.skip(i as int).first() == vp[i as int]);
                assert(vp.skip(i as int).drop_first() =~= vp.skip(i + 1));
            }
            let ghost pre = self.snapshot@;
            let ghost before = inserted@;
            let res = self.snapshot.try_insert(now, d);
            match res {
                Some(x) => {
                    inserted.push(x);
                    proof {
                        assert(views_of(inserted@) =~= views_of(before).push(
                            inserted@.last()@,
                        ));
                        assert(views_of(before) + (seq![inserted@.last()@] + commit_inserted(
                            self.snapshot@,
                            now,
                            vp.skip(i + 1),
                        )) =~= views_of(inserted@) + commit_inserted(
                            self.snapshot@,
                            now,
                            vp.skip(i + 1),
                        ));
                    }
                },
                None => {},
            }
            i += 1;
        }
        proof {
            assert(vp.skip(vp.len() as int) =~= Seq::<SignedAccountDataV>::empty());
            assert(views_of(inserted@) + Seq::<SignedAccountDataV>::empty() =~= views_of(
                inserted@,
            ));
        }
        (inserted, err)
    }
}

/// The valid prefix is a pointwise prefix of the list.
pub proof fn lemma_valid_prefix_is_prefix(sel: Seq<SignedAccountDataV>)
    ensures
        valid_prefix(sel).len() <= sel.len(),
        forall|i: int|
            0 <= i < valid_prefix(sel).len() ==> #[trigger] valid_prefix(sel)[i] == sel[i],
    decreases sel.len(),
{
    if sel.len() > 0 && signature_ok(sel.first()) {
        lemma_valid_prefix_is_prefix(sel.drop_first());
        assert forall|i: int|
            0 <= i < valid_prefix(sel).len() implies #[trigger] valid_prefix(sel)[i] == sel[
            i
        ] by {
            if i > 0 {
                assert(valid_prefix(sel)[i] == valid_prefix(sel.drop_first())[i - 1]);
                assert(valid_prefix(sel.drop_first())[i - 1] == sel.drop_first()[i - 1]);
                assert(sel.drop_first()[i - 1] == sel[i]);
            }
        }
    }
}

/// Whether two keys-by-id tables describe the same map of key sets.
pub fn maps_of_sets_eq(a: &KvMap<KeySet>, b: &KvMap<KeySet>) -> (r: bool)
    requires
        a.wf(),
        b.wf(),
        forall|i: int| 0 <= i < a.entries@.len() ==> (#[trigger] a.entries@[i].1).wf(),
        forall|i: int| 0 <= i < b.entries@.len() ==> (#[trigger] b.entries@[i].1).wf(),
    ensures
        r == (a@ == b@),
{
    proof {
        lemma_entries_map_len(a.entries@);
        lemma_entries_map_len(b.entries@);
    }
    if a.entries.len() != b.entries.len() {
        proof {
            if a@ == b@ {
                assert(a@.dom() == b@.dom());
                assert(false);
            }
        }
        return false;
    }
    let mut i: usize = 0;
    while i < a.entries.len()
        invariant
            i <= a.entries@.len(),
            a.wf(),
            b.wf(),
            forall|j: int| 0 <= j < a.entries@.len() ==> (#[trigger] a.entries@[j].1).wf(),
            forall|j: int| 0 <= j < b.entries@.len() ==> (#[trigger] b.entries@[j].1).wf(),
            forall|j: int|
                0 <= j < i ==> b@.contains_key(#[trigger] a.entries@[j].0@) && b@[a.entries@[
                    j
                ].0@] == a.entries@[j].1@,
        decreases a.entries@.len() - i,
    {
        proof {
            lemma_entry_key_present(a.entries@, i as int);
            lemma_index_of_key(a.entries@, a.entries@[i as int].0@);
            let idx = index_of_key(a.entries@, a.entries@[i as int].0@);
            if idx != i {
                assert(a.entries@[idx].0@ == a.entries@[i as int].0@);
                assert(false);
            }
        }
        match b.get(&a.entries[i].0) {
            None => {
                proof {
                    assert(a@.contains_key(a.entries@[i as int].0@));
                }
                return false;
            },
            Some(bv) => {
                proof {
                    lemma_index_of_key(b.entries@, a.entries@[i as int].0@);
                    let gi = index_of_key(b.entries@, a.entries@[i as int].0@);
                    assert((b.entries@[gi].1).wf());
                    assert((a.entries@[i as int].1).wf());
                }
                if !a.entries[i].1.set_eq(bv) {
                    proof {
                        let gi = index_of_key(b.entries@, a.entries@[i as int].0@);
                        lemma_index_of_key(b.entries@, a.entries@[i as int].0@);
                        assert(a@[a.entries@[i as int].0@] == a.entries@[i as int].1@);
                        assert(bv@ == b@[a.entries@[i as int].0@]);
                    }
                    return false;
                }
            },
        }
        i += 1;
    }
    proof {
        assert forall|k: Seq<u8>| #[trigger] a@.dom().contains(k) implies b@.dom().contains(k)
            && a@[k] == b@[k] by {
            assert(a@.contains_key(k));
            lemma_index_of_key(a.entries@, k);
            let idx = index_of_key(a.entries@, k);
            assert(b@.contains_key(a.entries@[idx].0@));
            assert(b@[a.entries@[idx].0@] == a.entries@[idx].1@);
        }
        assert(a@.dom().subset_of(b@.dom()));
        crate::keyset::lemma_subset_same_len(a@.dom(), b@.dom());
        assert(a@ =~= b@);
    }
    true
}

} // verus!

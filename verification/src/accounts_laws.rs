use crate::account_data::{SignedAccountDataV, MAX_ACCOUNT_DATA_SIZE_BYTES};
use crate::accounts_cache::{
    commit_inserted, commit_snapshot, prefilter, prefilter_rec, Error,
};
use crate::snapshot::{try_insert_result, try_insert_snapshot, CacheSnapshot, SnapshotV};
use vstd::prelude::*;

verus! {

/// Law: everything the cache stores data for is a key that matters — the
/// data map's domain stays inside the flat key set.
pub proof fn lemma_data_keys_subset(s: CacheSnapshot)
    requires
        s.wf(),
    ensures
        forall|k: Seq<u8>| #[trigger] s@.data.contains_key(k) ==> s@.keys.contains(k),
{
}

/// One insertion never lowers a stored version, and never drops a key.
pub proof fn lemma_try_insert_monotone(s: SnapshotV, now: u64, d: SignedAccountDataV)
    requires
        d.version < u64::MAX,
    ensures
        forall|k: Seq<u8>| #[trigger]
            s.data.contains_key(k) ==> try_insert_snapshot(s, now, d).data.contains_key(k)
                && try_insert_snapshot(s, now, d).data[k].version >= s.data[k].version,
{
    match try_insert_result(s, now, d) {
        None => {},
        Some(x) => {
            assert(x.account_key == d.account_key);
            assert forall|k: Seq<u8>| #[trigger]
                s.data.contains_key(k) implies try_insert_snapshot(s, now, d).data.contains_key(k)
                && try_insert_snapshot(s, now, d).data[k].version >= s.data[k].version by {
                if k == x.account_key {
                    assert(s.data[k].version < d.version);
                    assert(x.version >= d.version);
                }
            }
        },
    }
}

/// Committing a list of entries never lowers a stored version.
pub proof fn lemma_commit_monotone(s: SnapshotV, now: u64, sel: Seq<SignedAccountDataV>)
    requires
        forall|i: int| 0 <= i < sel.len() ==> (#[trigger] sel[i]).version < u64::MAX,
    ensures
        forall|k: Seq<u8>| #[trigger]
            s.data.contains_key(k) ==> commit_snapshot(s, now, sel).data.contains_key(k)
                && commit_snapshot(s, now, sel).data[k].version >= s.data[k].version,
    decreases sel.len(),
{
    if sel.len() > 0 {
        assert(sel[0].version < u64::MAX);
        lemma_try_insert_monotone(s, now, sel.first());
        assert forall|i: int|
            0 <= i < sel.drop_first().len() implies (#[trigger] sel.drop_first()[i]).version
            < u64::MAX by {
            assert(sel.drop_first()[i] == sel[i + 1]);
        }
        lemma_commit_monotone(try_insert_snapshot(s, now, sel.first()), now, sel.drop_first());
    }
}

/// Law: after committing a batch, every accepted record's key stores a
/// version at least as high as the accepted one. Together with
/// `lemma_commit_monotone`, across any sequence of commits the version
/// stored for a key is the highest ever accepted for it.
pub proof fn lemma_accepted_version_bounded(s: SnapshotV, now: u64, sel: Seq<SignedAccountDataV>)
    requires
        forall|i: int| 0 <= i < sel.len() ==> (#[trigger] sel[i]).version < u64::MAX,
    ensures
        forall|i: int|
            0 <= i < commit_inserted(s, now, sel).len() ==> {
                let x = #[trigger] commit_inserted(s, now, sel)[i];
                &&& commit_snapshot(s, now, sel).data.contains_key(x.account_key)
                &&& commit_snapshot(s, now, sel).data[x.account_key].version >= x.version
            },
    decreases sel.len(),
{
    if sel.len() > 0 {
        let s1 = try_insert_snapshot(s, now, sel.first());
        assert forall|i: int|
            0 <= i < sel.drop_first().len() implies (#[trigger] sel.drop_first()[i]).version
            < u64::MAX by {
            assert(sel.drop_first()[i] == sel[i + 1]);
        }
        lemma_accepted_version_bounded(s1, now, sel.drop_first());
        lemma_commit_monotone(s1, now, sel.drop_first());
        assert(sel[0].version < u64::MAX);
        match try_insert_result(s, now, sel.first()) {
            None => {
                let rest = commit_inserted(s1, now, sel.drop_first());
                assert(commit_inserted(s, now, sel) == rest);
                assert forall|i: int|
                    0 <= i < commit_inserted(s, now, sel).len() implies {
                    let y = #[trigger] commit_inserted(s, now, sel)[i];
                    &&& commit_snapshot(s, now, sel).data.contains_key(y.account_key)
                    &&& commit_snapshot(s, now, sel).data[y.account_key].version >= y.version
                } by {
                    assert(commit_inserted(s, now, sel)[i] == rest[i]);
                }
            },
            Some(x) => {
                assert(s1.data.contains_key(x.account_key) && s1.data[x.account_key] == x);
                let rest = commit_inserted(s1, now, sel.drop_first());
                assert forall|i: int|
                    0 <= i < commit_inserted(s, now, sel).len() implies {
                    let y = #[trigger] commit_inserted(s, now, sel)[i];
                    &&& commit_snapshot(s, now, sel).data.contains_key(y.account_key)
                    &&& commit_snapshot(s, now, sel).data[y.account_key].version >= y.version
                } by {
                    if i == 0 {
                        assert(commit_inserted(s, now, sel)[0] == x);
                    } else {
                        assert(commit_inserted(s, now, sel)[i] == rest[i - 1]);
                    }
                }
            },
        }
    }
}

/// If some key the batch carries is in `seen`, and no payload is oversized,
/// the pre-filter rejects the batch for carrying an account twice.
proof fn lemma_seen_key_rejected(
    s: SnapshotV,
    batch: Seq<SignedAccountDataV>,
    seen: Set<Seq<u8>>,
    acc: Seq<SignedAccountDataV>,
    j: int,
)
    requires
        0 <= j < batch.len(),
        seen.contains(batch[j].account_key),
        forall|l: int|
            0 <= l < batch.len() ==> (#[trigger] batch[l]).payload.len()
                <= MAX_ACCOUNT_DATA_SIZE_BYTES,
    ensures
        prefilter_rec(s, batch, seen, acc).rejected == Some(Error::SingleAccountMultipleData),
    decreases batch.len(),
{
    let d = batch.first();
    assert(batch[0].payload.len() <= MAX_ACCOUNT_DATA_SIZE_BYTES);
    if !seen.contains(d.account_key) {
        let tail = batch.drop_first();
        assert forall|l: int|
            0 <= l < tail.len() implies (#[trigger] tail[l]).payload.len()
            <= MAX_ACCOUNT_DATA_SIZE_BYTES by {
            assert(tail[l] == batch[l + 1]);
        }
        assert(tail[j - 1] == batch[j]);
        lemma_seen_key_rejected(
            s,
            tail,
            seen.insert(d.account_key),
            if crate::snapshot::is_new_spec(s, d) {
                acc.push(d)
            } else {
                acc
            },
            j - 1,
        );
    }
}

/// Two batch entries with the same account key reject the batch, when no
/// oversized payload rejects it first.
proof fn lemma_dup_rec(
    s: SnapshotV,
    batch: Seq<SignedAccountDataV>,
    seen: Set<Seq<u8>>,
    acc: Seq<SignedAccountDataV>,
    i: int,
    j: int,
)
    requires
        0 <= i < j < batch.len(),
        batch[i].account_key == batch[j].account_key,
        forall|l: int|
            0 <= l < batch.len() ==> (#[trigger] batch[l]).payload.len()
                <= MAX_ACCOUNT_DATA_SIZE_BYTES,
    ensures
        prefilter_rec(s, batch, seen, acc).rejected == Some(Error::SingleAccountMultipleData),
    decreases batch.len(),
{
    let d = batch.first();
    assert(batch[0].payload.len() <= MAX_ACCOUNT_DATA_SIZE_BYTES);
    if !seen.contains(d.account_key) {
        let tail = batch.drop_first();
        let seen2 = seen.insert(d.account_key);
        let acc2 = if crate::snapshot::is_new_spec(s, d) {
            acc.push(d)
        } else {
            acc
        };
        assert forall|l: int|
            0 <= l < tail.len() implies (#[trigger] tail[l]).payload.len()
            <= MAX_ACCOUNT_DATA_SIZE_BYTES by {
            assert(tail[l] == batch[l + 1]);
        }
        if i == 0 {
            assert(tail[j - 1] == batch[j]);
            assert(seen2.contains(tail[j - 1].account_key));
            lemma_seen_key_rejected(s, tail, seen2, acc2, j - 1);
        } else {
            assert(tail[i - 1] == batch[i]);
            assert(tail[j - 1] == batch[j]);
            lemma_dup_rec(s, tail, seen2, acc2, i - 1, j - 1);
        }
    }
}

/// Law: a batch that carries two entries for the same account key is
/// rejected whole with `SingleAccountMultipleData`, provided no oversized
/// payload rejects it first; by the contract of `Cache::insert`, the
/// snapshot is then unchanged and nothing is returned for rebroadcast.
pub proof fn lemma_duplicate_batch_rejected(
    s: SnapshotV,
    batch: Seq<SignedAccountDataV>,
    i: int,
    j: int,
)
    requires
        0 <= i < j < batch.len(),
        batch[i].account_key == batch[j].account_key,
        forall|l: int|
            0 <= l < batch.len() ==> (#[trigger] batch[l]).payload.len()
                <= MAX_ACCOUNT_DATA_SIZE_BYTES,
    ensures
        prefilter(s, batch).rejected == Some(Error::SingleAccountMultipleData),
{
    lemma_dup_rec(s, batch, Set::empty(), Seq::empty(), i, j);
}

} // verus!

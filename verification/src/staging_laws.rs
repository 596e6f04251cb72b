use crate::staging::{is_pending, PrefetchSlotV};
use vstd::prelude::*;

verus! {

/// One mutation of the staging area's slot table, as its contracts allow it:
/// a reservation that was granted, a worker's fetched bytes landing in its
/// slot, or a successful release.
pub enum StagingOp {
    Reserve(Seq<u8>, PrefetchSlotV),
    InsertFetched(Seq<u8>, Seq<u8>),
    Release(Seq<u8>),
}

/// The key an operation touches.
pub open spec fn op_key(op: StagingOp) -> Seq<u8> {
    match op {
        StagingOp::Reserve(k, _) => k,
        StagingOp::InsertFetched(k, _) => k,
        StagingOp::Release(k) => k,
    }
}

/// Whether the operation's preconditions hold in slot table `m`: only an
/// empty slot can be reserved, only a worker's reservation receives fetched
/// bytes, and only a slot that is not a worker's reservation is released.
pub open spec fn op_enabled(m: Map<Seq<u8>, PrefetchSlotV>, op: StagingOp) -> bool {
    match op {
        StagingOp::Reserve(k, s) => !m.contains_key(k) && is_pending(s),
        StagingOp::InsertFetched(k, _) => m.contains_key(k) && m[k] is PendingPrefetch,
        StagingOp::Release(k) => m.contains_key(k) && !(m[k] is PendingPrefetch),
    }
}

/// The slot table after the operation.
pub open spec fn op_apply(m: Map<Seq<u8>, PrefetchSlotV>, op: StagingOp) -> Map<
    Seq<u8>,
    PrefetchSlotV,
> {
    match op {
        StagingOp::Reserve(k, s) => m.insert(k, s),
        StagingOp::InsertFetched(k, b) => m.insert(k, PrefetchSlotV::Done(b)),
        StagingOp::Release(k) => m.remove(k),
    }
}

/// Whether every operation in the sequence is enabled when its turn comes.
pub open spec fn run_enabled(m: Map<Seq<u8>, PrefetchSlotV>, ops: Seq<StagingOp>) -> bool
    decreases ops.len(),
{
    ops.len() == 0 || (op_enabled(m, ops.first()) && run_enabled(
        op_apply(m, ops.first()),
        ops.drop_first(),
    ))
}

/// The slot table after the whole sequence.
pub open spec fn run_apply(m: Map<Seq<u8>, PrefetchSlotV>, ops: Seq<StagingOp>) -> Map<
    Seq<u8>,
    PrefetchSlotV,
>
    decreases ops.len(),
{
    if ops.len() == 0 {
        m
    } else {
        run_apply(op_apply(m, ops.first()), ops.drop_first())
    }
}

/// Index of the last operation on key `k`, or -1 if there is none.
pub open spec fn last_on_key(ops: Seq<StagingOp>, k: Seq<u8>) -> int
    decreases ops.len(),
{
    if ops.len() == 0 {
        -1
    } else if op_key(ops.last()) == k {
        ops.len() - 1
    } else {
        last_on_key(ops.drop_last(), k)
    }
}

/// Running one more operation is running the rest and then it.
pub proof fn lemma_run_snoc(m: Map<Seq<u8>, PrefetchSlotV>, ops: Seq<StagingOp>, op: StagingOp)
    ensures
        run_apply(m, ops.push(op)) == op_apply(run_apply(m, ops), op),
        run_enabled(m, ops.push(op)) == (run_enabled(m, ops) && op_enabled(
            run_apply(m, ops),
            op,
        )),
    decreases ops.len(),
{
    let p = ops.push(op);
    if ops.len() == 0 {
        reveal_with_fuel(run_apply, 2);
        reveal_with_fuel(run_enabled, 2);
        assert(p.first() == op);
        assert(p.drop_first() =~= Seq::<StagingOp>::empty());
        assert(run_apply(m, p) == run_apply(op_apply(m, op), p.drop_first()));
        assert(run_apply(m, ops) == m);
        assert(run_enabled(m, ops));
    } else {
        let m1 = op_apply(m, ops.first());
        assert(p.first() == ops.first());
        assert(p.drop_first() =~= ops.drop_first().push(op));
        lemma_run_snoc(m1, ops.drop_first(), op);
        assert(run_apply(m, p) == run_apply(m1, p.drop_first()));
        assert(run_apply(m, ops) == run_apply(m1, ops.drop_first()));
        assert(run_enabled(m, p) == (op_enabled(m, p.first()) && run_enabled(m1, p.drop_first())));
    }
}

/// After last_on_key there is no later operation on the key, and a
/// non-negative answer really is an operation on the key.
pub proof fn lemma_last_on_key(ops: Seq<StagingOp>, k: Seq<u8>)
    ensures
        -1 <= last_on_key(ops, k) < ops.len(),
        last_on_key(ops, k) == -1 ==> forall|l: int|
            0 <= l < ops.len() ==> op_key(#[trigger] ops[l]) != k,
        last_on_key(ops, k) >= 0 ==> {
            &&& last_on_key(ops, k) < ops.len()
            &&& op_key(ops[last_on_key(ops, k)]) == k
            &&& forall|l: int|
                last_on_key(ops, k) < l < ops.len() ==> op_key(#[trigger] ops[l]) != k
        },
    decreases ops.len(),
{
    if ops.len() > 0 && op_key(ops.last()) != k {
        let dl = ops.drop_last();
        lemma_last_on_key(dl, k);
        assert(forall|l: int| 0 <= l < dl.len() ==> dl[l] == #[trigger] ops[l]);
    }
}

/// The slot a key is in is decided by the last operation on that key, or by
/// the starting table if the key was never touched.
pub proof fn lemma_last_op_decides(
    m0: Map<Seq<u8>, PrefetchSlotV>,
    ops: Seq<StagingOp>,
    k: Seq<u8>,
)
    requires
        run_enabled(m0, ops),
    ensures
        last_on_key(ops, k) == -1 ==> {
            &&& run_apply(m0, ops).contains_key(k) == m0.contains_key(k)
            &&& m0.contains_key(k) ==> run_apply(m0, ops)[k] == m0[k]
        },
        last_on_key(ops, k) >= 0 ==> match ops[last_on_key(ops, k)] {
            StagingOp::Reserve(_, s) => run_apply(m0, ops).contains_key(k) && run_apply(m0, ops)[k]
                == s,
            StagingOp::InsertFetched(_, b) => run_apply(m0, ops).contains_key(k) && run_apply(
                m0,
                ops,
            )[k] == PrefetchSlotV::Done(b),
            StagingOp::Release(_) => !run_apply(m0, ops).contains_key(k),
        },
    decreases ops.len(),
{
    lemma_last_on_key(ops, k);
    if ops.len() > 0 {
        let dl = ops.drop_last();
        let last = ops.last();
        assert(ops =~= dl.push(last));
        lemma_run_snoc(m0, dl, last);
        assert(run_apply(m0, ops) == op_apply(run_apply(m0, dl), last));
        lemma_last_op_decides(m0, dl, k);
        lemma_last_on_key(dl, k);
        assert(forall|l: int| 0 <= l < dl.len() ==> dl[l] == #[trigger] ops[l]);
        if op_key(last) != k {
            assert(last_on_key(ops, k) == last_on_key(dl, k));
        } else {
            assert(last_on_key(ops, k) == ops.len() - 1);
            assert(ops[ops.len() - 1] == last);
        }
    }
}

/// A run is enabled on every prefix, and each operation is enabled in the
/// table the operations before it produced.
pub proof fn lemma_run_enabled_at(m0: Map<Seq<u8>, PrefetchSlotV>, ops: Seq<StagingOp>, i: int)
    requires
        run_enabled(m0, ops),
        0 <= i < ops.len(),
    ensures
        run_enabled(m0, ops.take(i)),
        op_enabled(run_apply(m0, ops.take(i)), ops[i]),
    decreases i,
{
    if i == 0 {
        assert(ops.take(0) =~= Seq::<StagingOp>::empty());
        assert(ops[0] == ops.first());
    } else {
        let m1 = op_apply(m0, ops.first());
        lemma_run_enabled_at(m1, ops.drop_first(), i - 1);
        assert(ops.drop_first().take(i - 1) =~= ops.take(i).drop_first());
        assert(ops.take(i).first() == ops.first());
        assert(ops.drop_first()[i - 1] == ops[i]);
    }
}

/// No operation strictly between `j` and `i` touches key `k`.
pub open spec fn quiet_between(ops: Seq<StagingOp>, j: int, i: int, k: Seq<u8>) -> bool {
    forall|l: int| j < l < i ==> op_key(#[trigger] ops[l]) != k
}

/// Law: in any sequence of staging operations that respects the staging
/// contracts, starting from an empty table, the successful operations on a
/// key alternate. Fetched bytes land only in a slot whose closest preceding
/// operation on that key is a worker's reservation, and a slot is released
/// only when the closest preceding operation on that key either delivered
/// the bytes or was the main thread's own reservation.
pub proof fn lemma_staging_alternation(ops: Seq<StagingOp>, i: int, k: Seq<u8>)
    requires
        run_enabled(Map::<Seq<u8>, PrefetchSlotV>::empty(), ops),
        0 <= i < ops.len(),
        op_key(ops[i]) == k,
    ensures
        ops[i] is InsertFetched ==> exists|j: int|
            0 <= j < i && #[trigger] ops[j] == StagingOp::Reserve(
                k,
                PrefetchSlotV::PendingPrefetch,
            ) && quiet_between(ops, j, i, k),
        ops[i] is Release ==> exists|j: int|
            {
                &&& 0 <= j < i
                &&& (op_key(#[trigger] ops[j]) == k && ops[j] is InsertFetched) || ops[j]
                    == StagingOp::Reserve(k, PrefetchSlotV::PendingFetch)
                &&& quiet_between(ops, j, i, k)
            },
{
    let m0 = Map::<Seq<u8>, PrefetchSlotV>::empty();
    let prefix = ops.take(i);
    lemma_run_enabled_at(m0, ops, i);
    let m = run_apply(m0, prefix);
    let j = last_on_key(prefix, k);
    lemma_last_on_key(prefix, k);
    lemma_last_op_decides(m0, prefix, k);
    if ops[i] is InsertFetched || ops[i] is Release {
        if j == -1 {
            assert(!m.contains_key(k));
            assert(false);
        }
        assert(prefix[j] == ops[j]);
        assert forall|l: int| j < l < i implies op_key(#[trigger] ops[l]) != k by {
            assert(ops[l] == prefix[l]);
            assert(op_key(prefix[l]) != k);
        }
        assert(quiet_between(ops, j, i, k));
        if ops[i] is InsertFetched {
            assert(m[k] is PendingPrefetch);
            match prefix[j] {
                StagingOp::Reserve(k2, s) => {
                    assert(k2 == k && s == PrefetchSlotV::PendingPrefetch);
                    assert(ops[j] == StagingOp::Reserve(k, PrefetchSlotV::PendingPrefetch));
                },
                StagingOp::InsertFetched(_, b) => {
                    assert(false);
                },
                StagingOp::Release(_) => {
                    assert(false);
                },
            }
        } else {
            assert(m.contains_key(k) && !(m[k] is PendingPrefetch));
            match prefix[j] {
                StagingOp::Reserve(k2, s) => {
                    assert(k2 == k);
                    lemma_run_enabled_at(m0, prefix, j);
                    assert(is_pending(s));
                    assert(s == m[k]);
                    assert(s == PrefetchSlotV::PendingFetch);
                    assert(ops[j] == StagingOp::Reserve(k, PrefetchSlotV::PendingFetch));
                },
                StagingOp::InsertFetched(k2, _) => {
                    assert(op_key(ops[j]) == k && ops[j] is InsertFetched);
                },
                StagingOp::Release(_) => {
                    assert(false);
                },
            }
        }
    }
}

} // verus!

use crate::bytes::clone_bytes;
use crate::shard_cache::TrieCache;
use crate::staging::{
    is_pending, PrefetchSlot, PrefetchSlotV, PrefetchStagingArea, PrefetcherResult, PollOutcome,
    PREFETCH_RESERVED_BYTES_PER_SLOT,
};
use vstd::prelude::*;

verus! {

broadcast use vstd::string::to_string_from_display_ensures_for_str;

/// Errors a storage read can surface.
#[derive(Debug)]
pub enum StorageError {
    /// The backing store raised an I/O error.
    StorageInternalError,
    /// The requested trie node is missing, or the prefetcher had to abandon
    /// the request (a lost race, or the staging memory limit).
    StorageInconsistentState(String),
}

/// What a read of the backing store produced. The read itself happens outside
/// this crate; its outcome is handed in as a plain value.
pub enum StoreReadResult {
    Value(Vec<u8>),
    Missing,
    IoError,
}

/// First step of a worker-side read: either a finished value, or what the
/// caller has to do next.
pub enum RetrieveBegin {
    /// The bytes were already at hand.
    Value(Vec<u8>),
    /// A slot was reserved; read the backing store and hand the outcome to
    /// `retrieve_fetched`.
    NeedFetch,
    /// Another thread is fetching; poll `retrieve_pending` until it settles.
    MustWait,
    /// The request was abandoned.
    Failed(StorageError),
}

/// One poll while waiting on another thread's fetch.
pub enum PendingOutcome {
    Ready(Vec<u8>),
    KeepWaiting,
    Failed(StorageError),
}

/// First step of a main-thread read.
pub enum MainReadBegin {
    /// The bytes were cached or staged; a staged value has been promoted to
    /// the shard cache and its slot released.
    Value(Vec<u8>),
    /// Read the backing store, then hand the bytes to `promote`.
    FetchNeeded,
    /// A prefetch worker owns the slot; poll `retrieve_pending`.
    WaitForPrefetch,
}

/// Trie storage with a shard cache and a prefetch staging area in front of a
/// backing store. The store itself lives outside this crate; the ghost map
/// `store` stands for its trie-state column, which no one else writes while
/// prefetching runs. Everything either cache holds agrees with that column.
pub struct TrieCachingStorage {
    pub shard_cache: TrieCache,
    pub prefetching: PrefetchStagingArea,
    pub store: Ghost<Map<Seq<u8>, Seq<u8>>>,
}

impl TrieCachingStorage {
    /// Both caches are well formed, hold only bytes the backing store holds,
    /// and never hold the same hash at once.
    pub open spec fn wf(self) -> bool {
        &&& self.shard_cache.wf()
        &&& self.prefetching.wf()
        &&& forall|h: Seq<u8>| #[trigger]
            self.shard_cache@.contains_key(h) ==> self.store@.contains_key(h)
                && self.shard_cache@[h] == self.store@[h]
        &&& forall|h: Seq<u8>| #[trigger]
            self.prefetching@.contains_key(h) ==> match self.prefetching@[h] {
                PrefetchSlotV::Done(b) => self.store@.contains_key(h) && b == self.store@[h],
                _ => true,
            }
        &&& forall|h: Seq<u8>| #[trigger]
            self.prefetching@.contains_key(h) ==> !self.shard_cache@.contains_key(h)
    }

    pub fn new() -> (r: Self)
        ensures
            r.wf(),
            r.shard_cache@ == Map::<Seq<u8>, Seq<u8>>::empty(),
            r.prefetching@ == Map::<Seq<u8>, PrefetchSlotV>::empty(),
            r.prefetching.size_bytes == 0,
    {
        TrieCachingStorage {
            shard_cache: TrieCache::new(),
            prefetching: PrefetchStagingArea::new(),
            store: Ghost(arbitrary()),
        }
    }

    /// Worker-side start of `retrieve_raw_bytes`: consult the shard cache,
    /// and on a miss reserve a prefetch slot in the staging area before
    /// anything else can slip in between. Every value handed out is the
    /// backing store's value for that hash.
    pub fn retrieve_begin(&mut self, hash: &Vec<u8>) -> (r: RetrieveBegin)
        requires
            old(self).wf(),
        ensures
            final(self).wf(),
            final(self).store == old(self).store,
            final(self).shard_cache@ == old(self).shard_cache@,
            final(self).prefetching.limit == old(self).prefetching.limit,
            match r {
                RetrieveBegin::Value(b) => {
                    &&& final(self).store@.contains_key(hash@)
                    &&& b@ == final(self).store@[hash@]
                    &&& *final(self) == *old(self)
                },
                RetrieveBegin::NeedFetch => {
                    &&& !old(self).shard_cache@.contains_key(hash@)
                    &&& !old(self).prefetching@.contains_key(hash@)
                    &&& final(self).prefetching@ == old(self).prefetching@.insert(
                        hash@,
                        PrefetchSlotV::PendingPrefetch,
                    )
                    &&& final(self).prefetching.size_bytes == old(self).prefetching.size_bytes
                        + PREFETCH_RESERVED_BYTES_PER_SLOT
                },
                RetrieveBegin::MustWait => {
                    &&& old(self).prefetching@.contains_key(hash@)
                    &&& is_pending(old(self).prefetching@[hash@])
                    &&& *final(self) == *old(self)
                },
                RetrieveBegin::Failed(e) => {
                    &&& !old(self).shard_cache@.contains_key(hash@)
                    &&& !old(self).prefetching@.contains_key(hash@)
                    &&& old(self).prefetching.size_bytes > old(self).prefetching.limit
                        - PREFETCH_RESERVED_BYTES_PER_SLOT
                    &&& e matches StorageError::StorageInconsistentState(m) && m@
                        == "Prefetcher failed"@
                    &&& *final(self) == *old(self)
                },
            },
    {
        match self.shard_cache.get(hash) {
            Some(val) => {
                return RetrieveBegin::Value(val);
            },
            None => {},
        }
        match self.prefetching.get_and_set_if_empty(
            clone_bytes(hash),
            PrefetchSlot::PendingPrefetch,
        ) {
            PrefetcherResult::SlotReserved => RetrieveBegin::NeedFetch,
            PrefetcherResult::Prefetched(value) => RetrieveBegin::Value(value),
            PrefetcherResult::Pending => RetrieveBegin::MustWait,
            PrefetcherResult::MemoryLimitReached => RetrieveBegin::Failed(
                StorageError::StorageInconsistentState("Prefetcher failed".to_string()),
            ),
        }
    }

    /// Worker-side continuation once the backing store answered for a slot
    /// this worker reserved. Fetched bytes land in the staging area; the
    /// worker does not release the slot, promotion is the main thread's job.
    /// A missing node or an I/O error is passed on and the slot stays as it
    /// was, exactly as wide as the store's answer allows.
    pub fn retrieve_fetched(&mut self, hash: &Vec<u8>, fetched: StoreReadResult) -> (r: Result<
        Vec<u8>,
        StorageError,
    >)
        requires
            old(self).wf(),
            old(self).prefetching@.contains_key(hash@),
            old(self).prefetching@[hash@] is PendingPrefetch,
            match fetched {
                StoreReadResult::Value(v) => {
                    &&& old(self).store@.contains_key(hash@)
                    &&& v@ == old(self).store@[hash@]
                    &&& v@.len() <= PREFETCH_RESERVED_BYTES_PER_SLOT
                },
                StoreReadResult::Missing => !old(self).store@.contains_key(hash@),
                StoreReadResult::IoError => true,
            },
        ensures
            final(self).wf(),
            final(self).store == old(self).store,
            final(self).shard_cache@ == old(self).shard_cache@,
            final(self).prefetching.limit == old(self).prefetching.limit,
            match fetched {
                StoreReadResult::Value(v) => {
                    &&& r matches Ok(b) && b@ == v@ && b@ == final(self).store@[hash@]
                    &&& final(self).prefetching@ == old(self).prefetching@.insert(
                        hash@,
                        PrefetchSlotV::Done(v@),
                    )
                    &&& final(self).prefetching.size_bytes == old(self).prefetching.size_bytes
                        - PREFETCH_RESERVED_BYTES_PER_SLOT + v@.len()
                },
                StoreReadResult::Missing => {
                    &&& r matches Err(StorageError::StorageInconsistentState(m)) && m@
                        == "Trie node missing"@
                    &&& *final(self) == *old(self)
                },
                StoreReadResult::IoError => {
                    &&& r matches Err(e) && e is StorageInternalError
                    &&& *final(self) == *old(self)
                },
            },
    {
        match fetched {
            StoreReadResult::Value(v) => {
                let keep = clone_bytes(&v);
                self.prefetching.insert_fetched(clone_bytes(hash), v);
                Ok(keep)
            },
            StoreReadResult::Missing => Err(
                StorageError::StorageInconsistentState("Trie node missing".to_string()),
            ),
            StoreReadResult::IoError => Err(StorageError::StorageInternalError),
        }
    }

    /// One worker-side poll while another thread owns the slot for `hash`:
    /// the staged bytes once they are done; or, if the slot is gone because
    /// the main thread promoted and released it, the shard cache's copy. If
    /// both are gone the request is abandoned; the caller moves on.
    pub fn retrieve_pending(&self, hash: &Vec<u8>) -> (r: PendingOutcome)
        requires
            self.wf(),
        ensures
            match r {
                PendingOutcome::Ready(b) => {
                    &&& self.store@.contains_key(hash@)
                    &&& b@ == self.store@[hash@]
                },
                PendingOutcome::KeepWaiting => {
                    &&& self.prefetching@.contains_key(hash@)
                    &&& is_pending(self.prefetching@[hash@])
                },
                PendingOutcome::Failed(e) => {
                    &&& !self.prefetching@.contains_key(hash@)
                    &&& !self.shard_cache@.contains_key(hash@)
                    &&& e matches StorageError::StorageInconsistentState(m) && m@
                        == "Prefetcher failed"@
                },
            },
    {
        match self.prefetching.poll_fetched(hash) {
            PollOutcome::Ready(value) => PendingOutcome::Ready(value),
            PollOutcome::KeepWaiting => PendingOutcome::KeepWaiting,
            PollOutcome::Absent => match self.shard_cache.get(hash) {
                Some(value) => PendingOutcome::Ready(value),
                None => PendingOutcome::Failed(
                    StorageError::StorageInconsistentState("Prefetcher failed".to_string()),
                ),
            },
        }
    }

    /// Moves a value into the shard cache and releases its staging slot, in
    /// that order, so the hash never sits in both places afterwards. Only the
    /// main thread does this, after its read obtained the value; the slot may
    /// hold the finished fetch, the main thread's own reservation, or nothing.
    pub fn promote(&mut self, hash: &Vec<u8>, value: Vec<u8>)
        requires
            old(self).wf(),
            old(self).store@.contains_key(hash@),
            value@ == old(self).store@[hash@],
            old(self).prefetching@.contains_key(hash@) ==> !(old(self).prefetching@[hash@]
                is PendingPrefetch),
        ensures
            final(self).wf(),
            final(self).store == old(self).store,
            final(self).prefetching.limit == old(self).prefetching.limit,
            final(self).shard_cache@ == old(self).shard_cache@.insert(hash@, value@),
            final(self).prefetching@ == old(self).prefetching@.remove(hash@),
    {
        self.shard_cache.insert(clone_bytes(hash), value);
        self.prefetching.release(hash);
    }

    /// Main-thread start of a read: consult the shard cache, then the staging
    /// area. A staged value is promoted on the spot; a miss reserves the slot
    /// as fetched-by-main, or proceeds without a slot when the staging area
    /// is at its memory limit.
    pub fn read_begin(&mut self, hash: &Vec<u8>) -> (r: MainReadBegin)
        requires
            old(self).wf(),
        ensures
            final(self).wf(),
            final(self).store == old(self).store,
            final(self).prefetching.limit == old(self).prefetching.limit,
            match r {
                MainReadBegin::Value(b) => {
                    &&& final(self).store@.contains_key(hash@)
                    &&& b@ == final(self).store@[hash@]
                    &&& final(self).shard_cache@.contains_key(hash@)
                    &&& !final(self).prefetching@.contains_key(hash@)
                },
                MainReadBegin::FetchNeeded => {
                    &&& !old(self).shard_cache@.contains_key(hash@)
                    &&& !old(self).prefetching@.contains_key(hash@)
                    &&& final(self).shard_cache@ == old(self).shard_cache@
                    &&& {
                        ||| final(self).prefetching@ == old(self).prefetching@
                        ||| final(self).prefetching@ == old(self).prefetching@.insert(
                            hash@,
                            PrefetchSlotV::PendingFetch,
                        )
                    }
                },
                MainReadBegin::WaitForPrefetch => {
                    &&& old(self).prefetching@.contains_key(hash@)
                    &&& is_pending(old(self).prefetching@[hash@])
                    &&& *final(self) == *old(self)
                },
            },
    {
        match self.shard_cache.get(hash) {
            Some(val) => {
                return MainReadBegin::Value(val);
            },
            None => {},
        }
        match self.prefetching.get_or_set_fetching(clone_bytes(hash)) {
            PrefetcherResult::SlotReserved => MainReadBegin::FetchNeeded,
            PrefetcherResult::Prefetched(value) => {
                let keep = clone_bytes(&value);
                self.promote(hash, value);
                MainReadBegin::Value(keep)
            },
            PrefetcherResult::Pending => MainReadBegin::WaitForPrefetch,
            PrefetcherResult::MemoryLimitReached => MainReadBegin::FetchNeeded,
        }
    }

    /// Empties the shard cache.
    pub fn clear_cache(&mut self)
        requires
            old(self).wf(),
        ensures
            final(self).wf(),
            final(self).store == old(self).store,
            final(self).shard_cache@ == Map::<Seq<u8>, Seq<u8>>::empty(),
            final(self).prefetching == old(self).prefetching,
    {
        self.shard_cache.clear();
    }

    /// How many staged values await promotion to the shard cache.
    pub fn num_prefetched_and_staged(&self) -> (r: usize)
        requires
            self.wf(),
        ensures
            r == crate::staging::count_done(self.prefetching.slots.entries@),
    {
        self.prefetching.num_done()
    }
}

} // verus!

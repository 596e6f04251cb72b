use crate::kvmap::{entries_map, index_of_key, lemma_index_of_key, KvMap};
use vstd::prelude::*;

verus! {

/// Upper bound, in bytes, on everything the staging area accounts for.
pub const MAX_PREFETCH_STAGING_MEMORY: usize = 200 * 1024 * 1024;

/// How much memory capacity is reserved for each prefetch request before its
/// real size is known. Set to 4 MiB, the cap on a stored value, so that
/// swapping a reservation for fetched bytes can only shrink the total.
pub const PREFETCH_RESERVED_BYTES_PER_SLOT: usize = 4 * 1024 * 1024;

/// One in-flight request in the staging area.
pub enum PrefetchSlot {
    /// An I/O worker reserved the slot; bytes are not here yet.
    PendingPrefetch,
    /// The main thread is fetching this value itself; workers must not start.
    PendingFetch,
    /// The fetched bytes, waiting to be promoted to the shard cache.
    Done(Vec<u8>),
}

/// Abstract value of a slot.
pub enum PrefetchSlotV {
    PendingPrefetch,
    PendingFetch,
    Done(Seq<u8>),
}

impl View for PrefetchSlot {
    type V = PrefetchSlotV;

    open spec fn view(&self) -> PrefetchSlotV {
        match self {
            PrefetchSlot::PendingPrefetch => PrefetchSlotV::PendingPrefetch,
            PrefetchSlot::PendingFetch => PrefetchSlotV::PendingFetch,
            PrefetchSlot::Done(b) => PrefetchSlotV::Done(b@),
        }
    }
}

/// Result of atomically inspecting-and-updating the staging area.
pub enum PrefetcherResult {
    SlotReserved,
    Pending,
    Prefetched(Vec<u8>),
    MemoryLimitReached,
}

/// A reservation slot, as opposed to one already holding bytes.
pub open spec fn is_pending(s: PrefetchSlotV) -> bool {
    s is PendingPrefetch || s is PendingFetch
}

/// Bytes a slot is charged for: a reservation counts the full quantum, a
/// finished fetch counts its actual length.
pub open spec fn slot_charge(s: PrefetchSlotV) -> nat {
    match s {
        PrefetchSlotV::Done(b) => b.len(),
        _ => PREFETCH_RESERVED_BYTES_PER_SLOT as nat,
    }
}

/// Total charge of a list of slots.
pub open spec fn charge_sum(s: Seq<(Vec<u8>, PrefetchSlot)>) -> nat
    decreases s.len(),
{
    if s.len() == 0 {
        0
    } else {
        charge_sum(s.drop_last()) + slot_charge(s.last().1@)
    }
}

/// Staging area for in-flight prefetch requests and a buffer for prefetched
/// data. A slot is reserved before a fetch starts; once the bytes are here
/// they are put in that slot, and the main thread later takes them out and
/// moves them to the shard cache.
pub struct PrefetchStagingArea {
    pub slots: KvMap<PrefetchSlot>,
    pub size_bytes: usize,
    pub limit: usize,
}

/// Removing one entry takes exactly its charge out of the total.
pub proof fn lemma_charge_sum_remove(s: Seq<(Vec<u8>, PrefetchSlot)>, i: int)
    requires
        0 <= i < s.len(),
    ensures
        charge_sum(s) == charge_sum(s.remove(i)) + slot_charge(s[i].1@),
    decreases s.len(),
{
    if i == s.len() - 1 {
        assert(s.remove(i) =~= s.drop_last());
    } else {
        assert(s.remove(i).drop_last() =~= s.drop_last().remove(i));
        assert(s.remove(i).last() == s.last());
        lemma_charge_sum_remove(s.drop_last(), i);
    }
}

/// Appending one entry adds exactly its charge to the total.
pub proof fn lemma_charge_sum_push(s: Seq<(Vec<u8>, PrefetchSlot)>, e: (Vec<u8>, PrefetchSlot))
    ensures
        charge_sum(s.push(e)) == charge_sum(s) + slot_charge(e.1@),
{
    assert(s.push(e).drop_last() =~= s);
    assert(s.push(e).last() == e);
}

impl PrefetchStagingArea {
    /// Every byte counted once: `size_bytes` is the sum of the slot charges,
    /// and stays under the configured limit.
    pub open spec fn wf(self) -> bool {
        &&& self.slots.wf()
        &&& self.size_bytes == charge_sum(self.slots.entries@)
        &&& self.size_bytes <= self.limit
        &&& PREFETCH_RESERVED_BYTES_PER_SLOT <= self.limit
    }

    /// The slots, abstractly: a map from hash to slot value.
    pub open spec fn view(self) -> Map<Seq<u8>, PrefetchSlotV> {
        self.slots@
    }

    pub fn new() -> (r: Self)
        ensures
            r.wf(),
            r@ == Map::<Seq<u8>, PrefetchSlotV>::empty(),
            r.size_bytes == 0,
            r.limit == MAX_PREFETCH_STAGING_MEMORY,
    {
        Self::with_limit(MAX_PREFETCH_STAGING_MEMORY)
    }

    /// A staging area with a custom byte limit; the limit must leave room for
    /// at least one reservation.
    pub fn with_limit(limit: usize) -> (r: Self)
        requires
            limit >= PREFETCH_RESERVED_BYTES_PER_SLOT,
        ensures
            r.wf(),
            r@ == Map::<Seq<u8>, PrefetchSlotV>::empty(),
            r.size_bytes == 0,
            r.limit == limit,
    {
        PrefetchStagingArea { slots: KvMap::new(), size_bytes: 0, limit }
    }

    /// Gets the prefetched value if available and otherwise atomically inserts
    /// the given slot if no request is pending yet; refuses the reservation
    /// when it could push the accounted bytes over the limit.
    pub fn get_and_set_if_empty(&mut self, key: Vec<u8>, set_if_empty: PrefetchSlot) -> (r:
        PrefetcherResult)
        requires
            old(self).wf(),
            is_pending(set_if_empty@),
        ensures
            final(self).wf(),
            final(self).limit == old(self).limit,
            match r {
                PrefetcherResult::Prefetched(b) => {
                    &&& old(self)@.contains_key(key@)
                    &&& old(self)@[key@] == PrefetchSlotV::Done(b@)
                    &&& *final(self) == *old(self)
                },
                PrefetcherResult::Pending => {
                    &&& old(self)@.contains_key(key@)
                    &&& is_pending(old(self)@[key@])
                    &&& *final(self) == *old(self)
                },
                PrefetcherResult::SlotReserved => {
                    &&& !old(self)@.contains_key(key@)
                    &&& old(self).size_bytes <= old(self).limit
                        - PREFETCH_RESERVED_BYTES_PER_SLOT
                    &&& final(self)@ == old(self)@.insert(key@, set_if_empty@)
                    &&& final(self).size_bytes == old(self).size_bytes
                        + PREFETCH_RESERVED_BYTES_PER_SLOT
                },
                PrefetcherResult::MemoryLimitReached => {
                    &&& !old(self)@.contains_key(key@)
                    &&& old(self).size_bytes > old(self).limit
                        - PREFETCH_RESERVED_BYTES_PER_SLOT
                    &&& *final(self) == *old(self)
                },
            },
    {
        match self.slots.get(&key) {
            Some(PrefetchSlot::Done(value)) => {
                return PrefetcherResult::Prefetched(crate::bytes::clone_bytes(value));
            },
            Some(_) => {
                return PrefetcherResult::Pending;
            },
            None => {},
        }
        if self.size_bytes > self.limit - PREFETCH_RESERVED_BYTES_PER_SLOT {
            return PrefetcherResult::MemoryLimitReached;
        }
        let ghost s = self.slots.entries@;
        self.slots.insert(key, set_if_empty);
        proof {
            let e = self.slots.entries@.last();
            assert(self.slots.entries@ == s.push(e));
            lemma_charge_sum_push(s, e);
        }
        self.size_bytes = self.size_bytes + PREFETCH_RESERVED_BYTES_PER_SLOT;
        PrefetcherResult::SlotReserved
    }

    /// Gets the prefetched value if available and otherwise atomically marks
    /// the slot as being fetched by the main thread.
    pub fn get_or_set_fetching(&mut self, key: Vec<u8>) -> (r: PrefetcherResult)
        requires
            old(self).wf(),
        ensures
            final(self).wf(),
            final(self).limit == old(self).limit,
            match r {
                PrefetcherResult::Prefetched(b) => {
                    &&& old(self)@.contains_key(key@)
                    &&& old(self)@[key@] == PrefetchSlotV::Done(b@)
                    &&& *final(self) == *old(self)
                },
                PrefetcherResult::Pending => {
                    &&& old(self)@.contains_key(key@)
                    &&& is_pending(old(self)@[key@])
                    &&& *final(self) == *old(self)
                },
                PrefetcherResult::SlotReserved => {
                    &&& !old(self)@.contains_key(key@)
                    &&& final(self)@ == old(self)@.insert(key@, PrefetchSlotV::PendingFetch)
                    &&& final(self).size_bytes == old(self).size_bytes
                        + PREFETCH_RESERVED_BYTES_PER_SLOT
                },
                PrefetcherResult::MemoryLimitReached => {
                    &&& !old(self)@.contains_key(key@)
                    &&& *final(self) == *old(self)
                },
            },
    {
        self.get_and_set_if_empty(key, PrefetchSlot::PendingFetch)
    }

    /// Replaces a worker's reservation with the fetched bytes, swapping the
    /// reserved quantum for the actual length in the accounting.
    pub fn insert_fetched(&mut self, key: Vec<u8>, value: Vec<u8>)
        requires
            old(self).wf(),
            old(self)@.contains_key(key@),
            old(self)@[key@] is PendingPrefetch,
            value@.len() <= PREFETCH_RESERVED_BYTES_PER_SLOT,
        ensures
            final(self).wf(),
            final(self).limit == old(self).limit,
            final(self)@ == old(self)@.insert(key@, PrefetchSlotV::Done(value@)),
            final(self).size_bytes == old(self).size_bytes - PREFETCH_RESERVED_BYTES_PER_SLOT
                + value@.len(),
    {
        let ghost s = self.slots.entries@;
        let ghost idx = index_of_key(s, key@);
        proof {
            lemma_index_of_key(s, key@);
            lemma_charge_sum_remove(s, idx);
        }
        let vlen = value.len();
        self.slots.insert(key, PrefetchSlot::Done(value));
        proof {
            let e = self.slots.entries@.last();
            assert(self.slots.entries@ == s.remove(idx).push(e));
            lemma_charge_sum_push(s.remove(idx), e);
        }
        self.size_bytes = self.size_bytes - PREFETCH_RESERVED_BYTES_PER_SLOT;
        self.size_bytes = self.size_bytes + vlen;
    }

    /// Releases a slot, subtracting whatever it was charged. The value must
    /// already be in the shard cache; a slot still reserved by a worker is a
    /// bug and is left to the caller's precondition. Releasing an absent slot
    /// is a permitted no-op.
    pub fn release(&mut self, key: &Vec<u8>)
        requires
            old(self).wf(),
            old(self)@.contains_key(key@) ==> !(old(self)@[key@] is PendingPrefetch),
        ensures
            final(self).wf(),
            final(self).limit == old(self).limit,
            final(self)@ == old(self)@.remove(key@),
            !old(self)@.contains_key(key@) ==> final(self).size_bytes == old(self).size_bytes,
            old(self)@.contains_key(key@) ==> final(self).size_bytes == old(self).size_bytes
                - slot_charge(old(self)@[key@]),
    {
        let ghost s = self.slots.entries@;
        let ghost idx = index_of_key(s, key@);
        proof {
            lemma_index_of_key(s, key@);
            if 0 <= idx {
                lemma_charge_sum_remove(s, idx);
            }
        }
        match self.slots.remove(key) {
            None => {},
            Some(PrefetchSlot::Done(value)) => {
                self.size_bytes = self.size_bytes - value.len();
            },
            Some(PrefetchSlot::PendingFetch) => {
                self.size_bytes = self.size_bytes - PREFETCH_RESERVED_BYTES_PER_SLOT;
            },
            Some(PrefetchSlot::PendingPrefetch) => {
                proof {
                    assert(false);
                }
            },
        }
    }

    /// One poll of the slot for `key`: the bytes if the fetch is done, a mark
    /// to keep waiting while it is pending, or nothing if the slot is gone.
    /// The busy-wait of a blocking get sits outside and just repeats this.
    pub fn poll_fetched(&self, key: &Vec<u8>) -> (r: PollOutcome)
        requires
            self.wf(),
        ensures
            match r {
                PollOutcome::Ready(b) => self@.contains_key(key@) && self@[key@]
                    == PrefetchSlotV::Done(b@),
                PollOutcome::KeepWaiting => self@.contains_key(key@) && is_pending(self@[key@]),
                PollOutcome::Absent => !self@.contains_key(key@),
            },
    {
        match self.slots.get(key) {
            Some(PrefetchSlot::Done(value)) => PollOutcome::Ready(
                crate::bytes::clone_bytes(value),
            ),
            Some(_) => PollOutcome::KeepWaiting,
            None => PollOutcome::Absent,
        }
    }

    /// How many slots hold fetched bytes that await promotion.
    pub fn num_done(&self) -> (r: usize)
        requires
            self.wf(),
        ensures
            r == count_done(self.slots.entries@),
    {
        let mut i: usize = 0;
        let mut n: usize = 0;
        while i < self.slots.entries.len()
            invariant
                i <= self.slots.entries@.len(),
                n == count_done(self.slots.entries@.take(i as int)),
                n <= i,
            decreases self.slots.entries@.len() - i,
        {
            proof {
                assert(self.slots.entries@.take(i + 1).drop_last() =~= self.slots.entries@.take(
                    i as int,
                ));
            }
            match &self.slots.entries[i].1 {
                PrefetchSlot::Done(_) => {
                    n = n + 1;
                },
                _ => {},
            }
            i = i + 1;
        }
        proof {
            assert(self.slots.entries@.take(self.slots.entries@.len() as int) =~= self
                .slots
                .entries@);
        }
        n
    }
}

/// Law: in a well-formed staging area the accounted total is exactly the sum
/// of the slot charges — a reservation quantum for each pending slot, the
/// byte length for each finished one — and that total never exceeds the
/// configured limit.
pub proof fn lemma_staging_accounting(s: PrefetchStagingArea)
    requires
        s.wf(),
    ensures
        s.size_bytes == charge_sum(s.slots.entries@),
        s.size_bytes <= s.limit,
{
}

/// Whether two slots are in the same state, disregarding any payload.
pub open spec fn same_slot_state(a: PrefetchSlotV, b: PrefetchSlotV) -> bool {
    match (a, b) {
        (PrefetchSlotV::PendingPrefetch, PrefetchSlotV::PendingPrefetch) => true,
        (PrefetchSlotV::PendingFetch, PrefetchSlotV::PendingFetch) => true,
        (PrefetchSlotV::Done(_), PrefetchSlotV::Done(_)) => true,
        _ => false,
    }
}

/// Whether `actual` is in the same state as `expected`, disregarding payload.
pub fn prefetch_state_matches(expected: PrefetchSlot, actual: &PrefetchSlot) -> (r: bool)
    ensures
        r == same_slot_state(expected@, actual@),
{
    match (&expected, actual) {
        (PrefetchSlot::PendingPrefetch, PrefetchSlot::PendingPrefetch) => true,
        (PrefetchSlot::PendingFetch, PrefetchSlot::PendingFetch) => true,
        (PrefetchSlot::Done(_), PrefetchSlot::Done(_)) => true,
        _ => false,
    }
}

/// Result of one poll for a slot's bytes.
pub enum PollOutcome {
    Ready(Vec<u8>),
    KeepWaiting,
    Absent,
}

/// How many entries hold finished fetches.
pub open spec fn count_done(s: Seq<(Vec<u8>, PrefetchSlot)>) -> nat
    decreases s.len(),
{
    if s.len() == 0 {
        0
    } else {
        count_done(s.drop_last()) + if s.last().1@ is Done {
            1nat
        } else {
            0nat
        }
    }
}

} // verus!

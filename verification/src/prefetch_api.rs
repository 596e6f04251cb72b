use vstd::prelude::*;

verus! {

/// Capacity of the shared work queue of trie keys to prefetch.
pub const MAX_QUEUED_WORK_ITEMS: usize = 16 * 1024;

#[verifier::external_type_specification]
#[verifier::external_body]
#[verifier::reject_recursive_types(T)]
pub struct ExArrayQueue<T>(crossbeam::queue::ArrayQueue<T>);

/// The items a work queue holds, oldest first.
pub uninterp spec fn queue_items(q: crossbeam::queue::ArrayQueue<Vec<u8>>) -> Seq<Seq<u8>>;

/// The fixed capacity a work queue was created with.
pub uninterp spec fn queue_capacity(q: crossbeam::queue::ArrayQueue<Vec<u8>>) -> nat;

/// Relies on crossbeam's ArrayQueue::new: a fresh queue with the given
/// capacity holds nothing. It panics on zero capacity, which the bound rules
/// out.
#[verifier::external_body]
pub(crate) fn queue_new(cap: usize) -> (q: crossbeam::queue::ArrayQueue<Vec<u8>>)
    requires
        1 <= cap <= 0x1000000,
    ensures
        queue_items(q) == Seq::<Seq<u8>>::empty(),
        queue_capacity(q) == cap,
{
    crossbeam::queue::ArrayQueue::new(cap)
}

/// Relies on crossbeam's ArrayQueue::push: appends the value at the tail, or
/// hands it back as the error when the queue is full.
#[verifier::external_body]
pub(crate) fn queue_push(q: &mut crossbeam::queue::ArrayQueue<Vec<u8>>, value: Vec<u8>) -> (r:
    Result<(), Vec<u8>>)
    ensures
        queue_capacity(*final(q)) == queue_capacity(*old(q)),
        queue_items(*old(q)).len() < queue_capacity(*old(q)) ==> r is Ok && queue_items(*final(q))
            == queue_items(*old(q)).push(value@),
        queue_items(*old(q)).len() >= queue_capacity(*old(q)) ==> (r matches Err(v) && v@
            == value@) && queue_items(*final(q)) == queue_items(*old(q)),
{
    q.push(value)
}

/// Relies on crossbeam's ArrayQueue::pop: takes the oldest item out, or
/// returns nothing from an empty queue.
#[verifier::external_body]
pub(crate) fn queue_pop(q: &mut crossbeam::queue::ArrayQueue<Vec<u8>>) -> (r: Option<Vec<u8>>)
    ensures
        queue_capacity(*final(q)) == queue_capacity(*old(q)),
        queue_items(*old(q)).len() == 0 ==> r is None && queue_items(*final(q)) == queue_items(
            *old(q),
        ),
        queue_items(*old(q)).len() > 0 ==> (r matches Some(v) && v@ == queue_items(
            *old(q),
        ).first()) && queue_items(*final(q)) == queue_items(*old(q)).drop_first(),
{
    q.pop()
}

/// Relies on crossbeam's ArrayQueue::len: the number of items held.
#[verifier::external_body]
pub(crate) fn queue_len(q: &crossbeam::queue::ArrayQueue<Vec<u8>>) -> (r: usize)
    ensures
        r == queue_items(*q).len(),
{
    q.len()
}

/// What an I/O worker does next: walk the trie for a key, nap on an empty
/// queue, or exit once stopped.
pub enum WorkerAction {
    Walk(Vec<u8>),
    Sleep,
    Exit,
}

/// Bounded queue of trie keys to prefetch, plus the stop flag the workers
/// watch. The runtime puts requests in; I/O workers take them out and walk
/// the trie over the prefetching storage, filling the shared staging area as
/// a side effect. Sharing this handle between threads, and the thread spawn
/// itself, stay with the caller.
pub struct PrefetchApi {
    pub work_queue: crossbeam::queue::ArrayQueue<Vec<u8>>,
    pub stop_io: bool,
}

impl PrefetchApi {
    pub open spec fn wf(self) -> bool {
        &&& queue_capacity(self.work_queue) == MAX_QUEUED_WORK_ITEMS
        &&& queue_items(self.work_queue).len() <= queue_capacity(self.work_queue)
    }

    /// The queued keys, oldest first.
    pub open spec fn queued(self) -> Seq<Seq<u8>> {
        queue_items(self.work_queue)
    }

    pub fn new() -> (r: Self)
        ensures
            r.wf(),
            r.queued() == Seq::<Seq<u8>>::empty(),
            !r.stop_io,
    {
        PrefetchApi { work_queue: queue_new(MAX_QUEUED_WORK_ITEMS), stop_io: false }
    }

    /// Queues a trie key for prefetching; returns the key back if the queue
    /// is full, and the caller drops or retries it.
    pub fn prefetch_trie_key(&mut self, trie_key: Vec<u8>) -> (r: Result<(), Vec<u8>>)
        requires
            old(self).wf(),
        ensures
            final(self).wf(),
            final(self).stop_io == old(self).stop_io,
            old(self).queued().len() < MAX_QUEUED_WORK_ITEMS ==> r is Ok && final(self).queued()
                == old(self).queued().push(trie_key@),
            old(self).queued().len() >= MAX_QUEUED_WORK_ITEMS ==> (r matches Err(k) && k@
                == trie_key@) && final(self).queued() == old(self).queued(),
    {
        queue_push(&mut self.work_queue, trie_key)
    }

    /// One turn of an I/O worker's loop: exit when stopped, otherwise take
    /// the oldest key to walk, or sleep briefly when there is no work.
    pub fn worker_step(&mut self) -> (r: WorkerAction)
        requires
            old(self).wf(),
        ensures
            final(self).wf(),
            final(self).stop_io == old(self).stop_io,
            match r {
                WorkerAction::Exit => old(self).stop_io && final(self).queued() == old(
                    self,
                ).queued(),
                WorkerAction::Sleep => !old(self).stop_io && old(self).queued().len() == 0
                    && final(self).queued() == old(self).queued(),
                WorkerAction::Walk(k) => !old(self).stop_io && old(self).queued().len() > 0 && k@
                    == old(self).queued().first() && final(self).queued() == old(
                    self,
                ).queued().drop_first(),
            },
    {
        if self.stop_io {
            return WorkerAction::Exit;
        }
        match queue_pop(&mut self.work_queue) {
            Some(key) => WorkerAction::Walk(key),
            None => WorkerAction::Sleep,
        }
    }

    /// Drains every queued request.
    pub fn clear(&mut self)
        requires
            old(self).wf(),
        ensures
            final(self).wf(),
            final(self).stop_io == old(self).stop_io,
            final(self).queued().len() == 0,
    {
        while queue_len(&self.work_queue) > 0
            invariant
                self.wf(),
                self.stop_io == old(self).stop_io,
            decreases queue_items(self.work_queue).len(),
        {
            let _ = queue_pop(&mut self.work_queue);
        }
    }

    /// Tells the I/O workers to stop after their current task; queued work is
    /// left behind.
    pub fn stop(&mut self)
        requires
            old(self).wf(),
        ensures
            final(self).wf(),
            final(self).stop_io,
            final(self).queued() == old(self).queued(),
    {
        self.stop_io = true;
    }

    /// Whether any request is waiting.
    pub fn work_queued(&self) -> (r: bool)
        requires
            self.wf(),
        ensures
            r == (self.queued().len() > 0),
    {
        queue_len(&self.work_queue) > 0
    }
}

} // verus!

use crate::bytes::clone_bytes;
use crate::kvmap::KvMap;
use vstd::prelude::*;

verus! {

/// Hot cache of trie-node bytes keyed by content hash, shared between the
/// main thread and the prefetching workers. Its eviction policy is not this
/// crate's concern; here it is a plain keyed store.
pub struct TrieCache {
    pub map: KvMap<Vec<u8>>,
}

impl TrieCache {
    pub open spec fn wf(self) -> bool {
        self.map.wf()
    }

    pub open spec fn view(self) -> Map<Seq<u8>, Seq<u8>> {
        self.map@
    }

    pub fn new() -> (r: Self)
        ensures
            r.wf(),
            r@ == Map::<Seq<u8>, Seq<u8>>::empty(),
    {
        TrieCache { map: KvMap::new() }
    }

    /// The cached bytes for `hash`, if present.
    pub fn get(&self, hash: &Vec<u8>) -> (r: Option<Vec<u8>>)
        requires
            self.wf(),
        ensures
            match r {
                Some(b) => self@.contains_key(hash@) && b@ == self@[hash@],
                None => !self@.contains_key(hash@),
            },
    {
        match self.map.get(hash) {
            Some(v) => Some(clone_bytes(v)),
            None => None,
        }
    }

    pub fn insert(&mut self, hash: Vec<u8>, value: Vec<u8>)
        requires
            old(self).wf(),
        ensures
            final(self).wf(),
            final(self)@ == old(self)@.insert(hash@, value@),
    {
        self.map.insert(hash, value);
    }

    /// Empties the cache.
    pub fn clear(&mut self)
        ensures
            final(self).wf(),
            final(self)@ == Map::<Seq<u8>, Seq<u8>>::empty(),
    {
        self.map.clear();
    }
}

} // verus!

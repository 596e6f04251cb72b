use crate::bytes::bytes_eq;
use vstd::prelude::*;

verus! {

/// Association list from byte-vector keys to values. Keys are unique, so the
/// list abstracts to a `Map` from key views to value views. Both caches of
/// this crate store their keyed state in one of these.
pub struct KvMap<V> {
    pub entries: Vec<(Vec<u8>, V)>,
}

/// The map described by a sequence of entries; a later entry wins.
pub open spec fn entries_map<V: View>(s: Seq<(Vec<u8>, V)>) -> Map<Seq<u8>, V::V>
    decreases s.len(),
{
    if s.len() == 0 {
        Map::empty()
    } else {
        entries_map(s.drop_last()).insert(s.last().0@, s.last().1@)
    }
}

/// Index of the last entry whose key views to `k`, or -1 if there is none.
pub open spec fn index_of_key<V>(s: Seq<(Vec<u8>, V)>, k: Seq<u8>) -> int
    decreases s.len(),
{
    if s.len() == 0 {
        -1
    } else if s.last().0@ == k {
        s.len() - 1
    } else {
        index_of_key(s.drop_last(), k)
    }
}

/// No two entries share a key.
pub open spec fn nodup_keys<V>(s: Seq<(Vec<u8>, V)>) -> bool {
    forall|i: int, j: int| 0 <= i < j < s.len() ==> s[i].0@ != s[j].0@
}

impl<V: View> View for KvMap<V> {
    type V = Map<Seq<u8>, V::V>;

    open spec fn view(&self) -> Map<Seq<u8>, V::V> {
        entries_map(self.entries@)
    }
}

pub proof fn lemma_index_of_key<V: View>(s: Seq<(Vec<u8>, V)>, k: Seq<u8>)
    ensures
        entries_map(s).contains_key(k) <==> 0 <= index_of_key(s, k),
        0 <= index_of_key(s, k) ==> {
            &&& index_of_key(s, k) < s.len()
            &&& s[index_of_key(s, k)].0@ == k
            &&& entries_map(s)[k] == s[index_of_key(s, k)].1@
        },
    decreases s.len(),
{
    if s.len() > 0 && s.last().0@ != k {
        lemma_index_of_key(s.drop_last(), k);
    }
}

/// Every entry's key is in the abstract map's domain.
pub proof fn lemma_entry_key_present<V: View>(s: Seq<(Vec<u8>, V)>, i: int)
    requires
        0 <= i < s.len(),
    ensures
        entries_map(s).contains_key(s[i].0@),
    decreases s.len(),
{
    if i < s.len() - 1 {
        lemma_entry_key_present(s.drop_last(), i);
    }
}

/// Unique keys carry over to a prefix of the entry list.
pub proof fn lemma_nodup_drop_last<V>(s: Seq<(Vec<u8>, V)>)
    requires
        nodup_keys(s),
        s.len() > 0,
    ensures
        nodup_keys(s.drop_last()),
{
    assert forall|i: int, j: int|
        0 <= i < j < s.drop_last().len() implies s.drop_last()[i].0@ != s.drop_last()[j].0@ by {
        assert(s[i].0@ != s[j].0@);
    }
}

/// With unique keys the abstract domain has exactly one element per entry.
pub proof fn lemma_entries_map_len<V: View>(s: Seq<(Vec<u8>, V)>)
    requires
        nodup_keys(s),
    ensures
        entries_map(s).dom().finite(),
        entries_map(s).dom().len() == s.len(),
    decreases s.len(),
{
    if s.len() > 0 {
        lemma_nodup_drop_last(s);
        lemma_entries_map_len(s.drop_last());
        lemma_index_of_key(s.drop_last(), s.last().0@);
        if entries_map(s.drop_last()).contains_key(s.last().0@) {
            let i = index_of_key(s.drop_last(), s.last().0@);
            assert(s[i].0@ == s[s.len() - 1].0@);
            assert(false);
        }
        assert(entries_map(s).dom() =~= entries_map(s.drop_last()).dom().insert(s.last().0@));
    }
}

impl<V: View> KvMap<V> {
    /// Well-formed: no two entries share a key.
    pub open spec fn wf(self) -> bool {
        nodup_keys(self.entries@)
    }

    pub fn new() -> (r: Self)
        ensures
            r.wf(),
            r@ == Map::<Seq<u8>, V::V>::empty(),
            r.entries@.len() == 0,
    {
        KvMap { entries: Vec::new() }
    }

    pub fn len(&self) -> (r: usize)
        requires
            self.wf(),
        ensures
            r == self.entries@.len(),
            self@.dom().finite(),
            r == self@.dom().len(),
    {
        proof {
            lemma_entries_map_len(self.entries@);
        }
        self.entries.len()
    }

    /// Drops every binding.
    pub fn clear(&mut self)
        ensures
            final(self).wf(),
            final(self)@ == Map::<Seq<u8>, V::V>::empty(),
            final(self).entries@.len() == 0,
    {
        self.entries.clear();
    }

    /// Looks the key up; returns the stored value if the key is bound.
    pub fn get<'a>(&'a self, key: &Vec<u8>) -> (r: Option<&'a V>)
        requires
            self.wf(),
        ensures
            match r {
                Some(v) => self@.contains_key(key@) && v@ == self@[key@] && *v == self.entries@[
                    index_of_key(self.entries@, key@)
                ].1,
                None => !self@.contains_key(key@),
            },
    {
        let ghost s = self.entries@;
        let mut i: usize = 0;
        while i < self.entries.len()
            invariant
                self.wf(),
                s == self.entries@,
                i <= s.len(),
                forall|j: int| 0 <= j < i ==> s[j].0@ != key@,
            decreases s.len() - i,
        {
            if bytes_eq(&self.entries[i].0, key) {
                proof {
                    lemma_entry_key_present(s, i as int);
                    lemma_index_of_key(s, key@);
                    let idx = index_of_key(s, key@);
                    if idx != i {
                        assert(s[idx].0@ == s[i as int].0@);
                        assert(false);
                    }
                }
                return Some(&self.entries[i].1);
            }
            i += 1;
        }
        proof {
            lemma_index_of_key(s, key@);
        }
        None
    }

    /// Removes the binding for `key`, returning the value that held it.
    pub fn remove(&mut self, key: &Vec<u8>) -> (r: Option<V>)
        requires
            old(self).wf(),
        ensures
            final(self).wf(),
            final(self)@ == old(self)@.remove(key@),
            match r {
                Some(v) => old(self)@.contains_key(key@) && v@ == old(self)@[key@]
                    && v == old(self).entries@[index_of_key(old(self).entries@, key@)].1
                    && final(self).entries@ == old(self).entries@.remove(
                    index_of_key(old(self).entries@, key@),
                ),
                None => !old(self)@.contains_key(key@) && *final(self) == *old(self),
            },
    {
        let ghost s = self.entries@;
        let mut i: usize = 0;
        while i < self.entries.len()
            invariant
                *self == *old(self),
                self.wf(),
                s == self.entries@,
                i <= s.len(),
                forall|j: int| 0 <= j < i ==> s[j].0@ != key@,
            decreases s.len() - i,
        {
            if bytes_eq(&self.entries[i].0, key) {
                proof {
                    lemma_entry_key_present(s, i as int);
                    lemma_index_of_key(s, key@);
                    let idx = index_of_key(s, key@);
                    if idx != i {
                        assert(s[idx].0@ == s[i as int].0@);
                        assert(false);
                    }
                    lemma_entries_map_remove(s, i as int);
                }
                let e = self.entries.remove(i);
                return Some(e.1);
            }
            i += 1;
        }
        proof {
            lemma_index_of_key(s, key@);
            assert(self@.remove(key@) =~= self@);
        }
        None
    }

    /// Binds `key` to `value`, replacing any previous binding.
    pub fn insert(&mut self, key: Vec<u8>, value: V)
        requires
            old(self).wf(),
        ensures
            final(self).wf(),
            final(self)@ == old(self)@.insert(key@, value@),
            old(self)@.contains_key(key@) ==> final(self).entries@ == old(self).entries@.remove(
                index_of_key(old(self).entries@, key@),
            ).push((key, value)),
            !old(self)@.contains_key(key@) ==> final(self).entries@ == old(self).entries@.push(
                (key, value),
            ),
    {
        let _ = self.remove(&key);
        let ghost mid = self.entries@;
        proof {
            lemma_index_of_key(mid, key@);
        }
        self.entries.push((key, value));
        proof {
            let s = self.entries@;
            assert forall|i: int, j: int| 0 <= i < j < s.len() implies s[i].0@ != s[j].0@ by {
                if j == s.len() - 1 {
                    lemma_entry_key_present(mid, i);
                } else {
                    assert(mid[i].0@ != mid[j].0@);
                }
            }
            assert(s.drop_last() =~= mid);
            assert(final(self)@ =~= old(self)@.insert(key@, value@));
        }
    }
}

/// Removing entry `i` removes exactly its key from the abstract map.
pub proof fn lemma_entries_map_remove<V: View>(s: Seq<(Vec<u8>, V)>, i: int)
    requires
        nodup_keys(s),
        0 <= i < s.len(),
    ensures
        nodup_keys(s.remove(i)),
        entries_map(s.remove(i)) == entries_map(s).remove(s[i].0@),
    decreases s.len(),
{
    let k = s[i].0@;
    s.remove_ensures(i);
    assert forall|a: int, b: int|
        0 <= a < b < s.remove(i).len() implies s.remove(i)[a].0@ != s.remove(i)[b].0@ by {
        let a0 = if a < i { a } else { a + 1 };
        let b0 = if b < i { b } else { b + 1 };
        assert(s[a0].0@ != s[b0].0@);
    }
    lemma_nodup_drop_last(s);
    if i == s.len() - 1 {
        assert(s.remove(i) =~= s.drop_last());
        lemma_index_of_key(s.drop_last(), k);
        if entries_map(s.drop_last()).contains_key(k) {
            let idx = index_of_key(s.drop_last(), k);
            assert(s[idx].0@ == s[i].0@);
            assert(false);
        }
        assert(entries_map(s.remove(i)) =~= entries_map(s).remove(k));
    } else {
        lemma_entries_map_remove(s.drop_last(), i);
        assert(s.remove(i).len() > 0);
        assert(s.remove(i).last() == s.last());
        assert(s.remove(i).drop_last() =~= s.drop_last().remove(i));
        assert(entries_map(s.remove(i)) == entries_map(s.drop_last().remove(i)).insert(
            s.last().0@,
            s.last().1@,
        ));
        assert(s.last().0@ != k);
        assert(entries_map(s.remove(i)) =~= entries_map(s).remove(k));
    }
}

} // verus!

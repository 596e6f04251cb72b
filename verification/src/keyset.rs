use crate::bytes::{bytes_eq, clone_bytes};
use vstd::prelude::*;
use vstd::set_lib::lemma_len_subset;

verus! {

/// A set of account keys, stored as a duplicate-free list of byte vectors
/// and abstracted as a `Set` of key views.
pub struct KeySet {
    pub items: Vec<Vec<u8>>,
}

/// The set the items describe.
pub open spec fn items_set(s: Seq<Vec<u8>>) -> Set<Seq<u8>>
    decreases s.len(),
{
    if s.len() == 0 {
        Set::empty()
    } else {
        items_set(s.drop_last()).insert(s.last()@)
    }
}

/// No two items view to the same key.
pub open spec fn nodup_items(s: Seq<Vec<u8>>) -> bool {
    forall|i: int, j: int| 0 <= i < j < s.len() ==> s[i]@ != s[j]@
}

impl View for KeySet {
    type V = Set<Seq<u8>>;

    open spec fn view(&self) -> Set<Seq<u8>> {
        items_set(self.items@)
    }
}

/// Membership in the abstract set is having an item with that view.
pub proof fn lemma_items_set_contains(s: Seq<Vec<u8>>, k: Seq<u8>)
    ensures
        items_set(s).contains(k) <==> exists|i: int| 0 <= i < s.len() && s[i]@ == k,
        items_set(s).finite(),
    decreases s.len(),
{
    if s.len() > 0 {
        lemma_items_set_contains(s.drop_last(), k);
        if s.last()@ == k {
            assert(s[s.len() - 1]@ == k);
        } else if exists|i: int| 0 <= i < s.drop_last().len() && s.drop_last()[i]@ == k {
            let i = choose|i: int| 0 <= i < s.drop_last().len() && s.drop_last()[i]@ == k;
            assert(s[i]@ == k);
        } else if exists|i: int| 0 <= i < s.len() && s[i]@ == k {
            let i = choose|i: int| 0 <= i < s.len() && s[i]@ == k;
            if i < s.len() - 1 {
                assert(s.drop_last()[i]@ == k);
            }
        }
    }
}

/// With unique items, the abstract set has one element per item.
pub proof fn lemma_items_set_len(s: Seq<Vec<u8>>)
    requires
        nodup_items(s),
    ensures
        items_set(s).finite(),
        items_set(s).len() == s.len(),
    decreases s.len(),
{
    if s.len() > 0 {
        assert forall|i: int, j: int|
            0 <= i < j < s.drop_last().len() implies s.drop_last()[i]@ != s.drop_last()[j]@ by {
            assert(s[i]@ != s[j]@);
        }
        lemma_items_set_len(s.drop_last());
        lemma_items_set_contains(s.drop_last(), s.last()@);
        if items_set(s.drop_last()).contains(s.last()@) {
            let i = choose|i: int|
                0 <= i < s.drop_last().len() && s.drop_last()[i]@ == s.last()@;
            assert(s[i]@ == s[s.len() - 1]@);
            assert(false);
        }
    }
}

/// A finite subset with the same cardinality is the same set.
pub proof fn lemma_subset_same_len(s1: Set<Seq<u8>>, s2: Set<Seq<u8>>)
    requires
        s1.subset_of(s2),
        s1.finite(),
        s2.finite(),
        s1.len() == s2.len(),
    ensures
        s1 == s2,
{
    assert forall|x: Seq<u8>| s2.contains(x) implies s1.contains(x) by {
        if !s1.contains(x) {
            lemma_len_subset(s1, s2.remove(x));
            assert(false);
        }
    }
    assert(s1 =~= s2);
}

impl KeySet {
    pub open spec fn wf(self) -> bool {
        nodup_items(self.items@)
    }

    pub fn new() -> (r: Self)
        ensures
            r.wf(),
            r@ == Set::<Seq<u8>>::empty(),
            r.items@.len() == 0,
    {
        KeySet { items: Vec::new() }
    }

    /// Whether the set holds `key`.
    pub fn contains(&self, key: &Vec<u8>) -> (r: bool)
        ensures
            r == self@.contains(key@),
    {
        proof {
            lemma_items_set_contains(self.items@, key@);
        }
        let mut i: usize = 0;
        while i < self.items.len()
            invariant
                i <= self.items@.len(),
                forall|j: int| 0 <= j < i ==> self.items@[j]@ != key@,
            decreases self.items@.len() - i,
        {
            if bytes_eq(&self.items[i], key) {
                proof {
                    lemma_items_set_contains(self.items@, key@);
                }
                return true;
            }
            i += 1;
        }
        proof {
            lemma_items_set_contains(self.items@, key@);
        }
        false
    }

    /// Adds `key` unless it is already there.
    pub fn insert_if_absent(&mut self, key: Vec<u8>)
        requires
            old(self).wf(),
        ensures
            final(self).wf(),
            final(self)@ == old(self)@.insert(key@),
    {
        if self.contains(&key) {
            proof {
                assert(self@.insert(key@) =~= self@);
            }
            return;
        }
        let ghost s = self.items@;
        self.items.push(key);
        proof {
            lemma_items_set_contains(s, key@);
            assert forall|i: int, j: int|
                0 <= i < j < self.items@.len() implies self.items@[i]@ != self.items@[j]@ by {
                if j < s.len() {
                    assert(s[i]@ != s[j]@);
                }
            }
            assert(self.items@.drop_last() =~= s);
        }
    }

    /// How many keys the set holds.
    pub fn len(&self) -> (r: usize)
        requires
            self.wf(),
        ensures
            self@.finite(),
            r == self@.len(),
    {
        proof {
            lemma_items_set_len(self.items@);
        }
        self.items.len()
    }

    /// Whether every key of this set is in `other`.
    pub fn is_subset(&self, other: &KeySet) -> (r: bool)
        ensures
            r == self@.subset_of(other@),
    {
        let mut i: usize = 0;
        while i < self.items.len()
            invariant
                i <= self.items@.len(),
                forall|j: int| 0 <= j < i ==> other@.contains(#[trigger] self.items@[j]@),
            decreases self.items@.len() - i,
        {
            if !other.contains(&self.items[i]) {
                proof {
                    lemma_items_set_contains(self.items@, self.items@[i as int]@);
                }
                return false;
            }
            i += 1;
        }
        proof {
            assert forall|k: Seq<u8>| self@.contains(k) implies other@.contains(k) by {
                lemma_items_set_contains(self.items@, k);
                let j = choose|j: int| 0 <= j < self.items@.len() && self.items@[j]@ == k;
                assert(other@.contains(self.items@[j]@));
            }
        }
        true
    }

    /// Whether the two sets hold the same keys.
    pub fn set_eq(&self, other: &KeySet) -> (r: bool)
        requires
            self.wf(),
            other.wf(),
        ensures
            r == (self@ == other@),
    {
        proof {
            lemma_items_set_len(self.items@);
            lemma_items_set_len(other.items@);
        }
        if self.items.len() != other.items.len() {
            return false;
        }
        if self.is_subset(other) {
            proof {
                lemma_subset_same_len(self@, other@);
            }
            true
        } else {
            false
        }
    }

    /// A fresh set with the same keys.
    pub fn duplicate(&self) -> (r: Self)
        requires
            self.wf(),
        ensures
            r.wf(),
            r@ == self@,
            r.items@.len() == self.items@.len(),
    {
        let mut items: Vec<Vec<u8>> = Vec::new();
        let mut i: usize = 0;
        while i < self.items.len()
            invariant
                i <= self.items@.len(),
                items@.len() == i,
                forall|j: int| 0 <= j < i ==> items@[j]@ == #[trigger] self.items@[j]@,
            decreases self.items@.len() - i,
        {
            items.push(clone_bytes(&self.items[i]));
            i += 1;
        }
        let r = KeySet { items };
        proof {
            lemma_views_same_set(r.items@, self.items@);
        }
        r
    }
}

/// Two item lists with pointwise equal views describe the same set.
pub proof fn lemma_views_same_set(a: Seq<Vec<u8>>, b: Seq<Vec<u8>>)
    requires
        a.len() == b.len(),
        forall|i: int| 0 <= i < a.len() ==> a[i]@ == #[trigger] b[i]@,
    ensures
        items_set(a) == items_set(b),
        nodup_items(b) ==> nodup_items(a),
    decreases a.len(),
{
    if nodup_items(b) {
        assert forall|i: int, j: int| 0 <= i < j < a.len() implies a[i]@ != a[j]@ by {
            assert(a[i]@ == b[i]@);
            assert(a[j]@ == b[j]@);
        }
    }
    if a.len() > 0 {
        assert forall|i: int|
            0 <= i < a.drop_last().len() implies a.drop_last()[i]@ == #[trigger] b.drop_last()[i]@ by {
            assert(a[i]@ == b[i]@);
        }
        lemma_views_same_set(a.drop_last(), b.drop_last());
        assert(a.last()@ == b[a.len() - 1]@);
        assert(items_set(a) =~= items_set(b));
    }
}

} // verus!

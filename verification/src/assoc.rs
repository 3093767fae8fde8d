//! A finite map kept as a list of entries with distinct keys, in insertion order.
use vstd::prelude::*;
use crate::bytes::hash_eq;
use crate::types::{outpoint_eq, OutPoint};

verus! {

/// Keys that can be compared for equality.
pub trait KeyEq: Sized + Copy {
    fn key_eq(&self, other: &Self) -> (r: bool)
        ensures
            r == (*self == *other);
}

impl KeyEq for OutPoint {
    fn key_eq(&self, other: &Self) -> (r: bool) {
        outpoint_eq(self, other)
    }
}

impl KeyEq for u64 {
    fn key_eq(&self, other: &Self) -> (r: bool) {
        *self == *other
    }
}

impl KeyEq for [u8; 32] {
    fn key_eq(&self, other: &Self) -> (r: bool) {
        hash_eq(self, other)
    }
}

/// Whether the keys of a list of entries are distinct.
pub open spec fn distinct_keys<K, V>(s: Seq<(K, V)>) -> bool {
    forall|i: int, j: int| 0 <= i < j < s.len() ==> s[i].0 != s[j].0
}

/// Whether some entry has key `k`.
pub open spec fn has_key<K, V>(s: Seq<(K, V)>, k: K) -> bool {
    exists|i: int| 0 <= i < s.len() && s[i].0 == k
}

/// The map that a list of entries denotes.
pub open spec fn entries_map<K, V>(s: Seq<(K, V)>) -> Map<K, V> {
    Map::new(|k: K| has_key(s, k), |k: K| s[choose|i: int| 0 <= i < s.len() && s[i].0 == k].1)
}

pub proof fn lemma_entries_map_at<K, V>(s: Seq<(K, V)>, i: int)
    requires
        distinct_keys(s),
        0 <= i < s.len(),
    ensures
        entries_map(s).dom().contains(s[i].0),
        entries_map(s)[s[i].0] == s[i].1,
{
    let k = s[i].0;
    assert(has_key(s, k));
    let j = choose|j: int| 0 <= j < s.len() && s[j].0 == k;
    if j != i {
        if j < i {
            assert(s[j].0 != s[i].0);
        } else {
            assert(s[i].0 != s[j].0);
        }
    }
}

pub proof fn lemma_entries_map_dom_len<K, V>(s: Seq<(K, V)>)
    requires
        distinct_keys(s),
    ensures
        entries_map(s).dom().finite(),
        entries_map(s).dom().len() == s.len(),
    decreases s.len(),
{
    if s.len() == 0 {
        assert(entries_map(s).dom() =~= Set::<K>::empty());
    } else {
        let t = s.drop_last();
        assert(distinct_keys(t));
        lemma_entries_map_dom_len(t);
        let k = s.last().0;
        assert(entries_map(s).dom() =~= entries_map(t).dom().insert(k)) by {
            assert forall|x: K| entries_map(s).dom().contains(x) implies entries_map(t).dom().insert(
                k,
            ).contains(x) by {
                let i = choose|i: int| 0 <= i < s.len() && s[i].0 == x;
                if i < s.len() - 1 {
                    assert(t[i].0 == x);
                }
            }
            assert forall|x: K| entries_map(t).dom().insert(k).contains(x) implies entries_map(
                s,
            ).dom().contains(x) by {
                if x != k {
                    let i = choose|i: int| 0 <= i < t.len() && t[i].0 == x;
                    assert(s[i].0 == x);
                } else {
                    assert(s[s.len() - 1].0 == x);
                }
            }
        }
        assert(!entries_map(t).dom().contains(k)) by {
            if entries_map(t).dom().contains(k) {
                let i = choose|i: int| 0 <= i < t.len() && t[i].0 == k;
                assert(s[i].0 != s[s.len() - 1].0);
            }
        }
    }
}

/// A finite map kept as a list of entries with distinct keys, in insertion order.
pub struct AssocList<K, V> {
    entries: Vec<(K, V)>,
}

impl<K, V> AssocList<K, V> {
    /// The entries, in insertion order.
    pub closed spec fn seq(&self) -> Seq<(K, V)> {
        self.entries@
    }

    #[verifier::type_invariant]
    closed spec fn keys_distinct(&self) -> bool {
        distinct_keys(self.entries@)
    }

    /// The map the entries denote.
    pub open spec fn map(&self) -> Map<K, V> {
        entries_map(self.seq())
    }

    /// The entries have distinct keys and the map has as many keys as there are entries;
    /// this states the type's invariant for a caller's proof and does nothing at run time.
    pub fn lemma_wf(&self)
        ensures
            distinct_keys(self.seq()),
            self.map().dom().finite(),
            self.map().dom().len() == self.seq().len(),
            forall|i: int|
                0 <= i < self.seq().len() ==> #[trigger] self.map().dom().contains(self.seq()[i].0)
                    && self.map()[self.seq()[i].0] == self.seq()[i].1,
    {
        proof {
            use_type_invariant(self);
            lemma_entries_map_dom_len(self.seq());
        }
        proof {
        assert forall|i: int| 0 <= i < self.seq().len() implies #[trigger] self.map().dom().contains(
            self.seq()[i].0,
        ) && self.map()[self.seq()[i].0] == self.seq()[i].1 by {
            lemma_entries_map_at(self.seq(), i);
        }
        }
    }

    pub fn new() -> (r: Self)
        ensures
            r.seq() == Seq::<(K, V)>::empty(),
            r.map() == Map::<K, V>::empty(),
    {
        let r = AssocList { entries: Vec::new() };
        assert(r.map() =~= Map::<K, V>::empty());
        r
    }

    pub fn len(&self) -> (r: usize)
        ensures
            r == self.seq().len(),
            r == self.map().dom().len(),
    {
        self.lemma_wf();
        self.entries.len()
    }

    /// The entries, in insertion order.
    pub fn entries(&self) -> (r: &Vec<(K, V)>)
        ensures
            r@ == self.seq(),
    {
        &self.entries
    }

    pub fn clear(&mut self)
        ensures
            final(self).seq() == Seq::<(K, V)>::empty(),
            final(self).map() == Map::<K, V>::empty(),
    {
        self.entries = Vec::new();
        assert(self.map() =~= Map::<K, V>::empty());
    }
}

impl<K: KeyEq, V> AssocList<K, V> {
    /// The position of the entry with key `k`, if any.
    pub fn find(&self, k: &K) -> (r: Option<usize>)
        ensures
            r matches Some(i) ==> i < self.seq().len() && self.seq()[i as int].0 == *k,
            r is None ==> !self.map().dom().contains(*k),
            r is Some <==> self.map().dom().contains(*k),
    {
        let mut i: usize = 0;
        while i < self.entries.len()
            invariant
                i <= self.entries@.len(),
                forall|j: int| 0 <= j < i ==> self.entries@[j].0 != *k,
            decreases self.entries@.len() - i,
        {
            if self.entries[i].0.key_eq(k) {
                return Some(i);
            }
            i = i + 1;
        }
        None
    }

    pub fn contains_key(&self, k: &K) -> (r: bool)
        ensures
            r == self.map().dom().contains(*k),
    {
        self.find(k).is_some()
    }

    pub fn get(&self, k: &K) -> (r: Option<&V>)
        ensures
            r matches Some(v) ==> self.map().dom().contains(*k) && *v == self.map()[*k],
            r is None ==> !self.map().dom().contains(*k),
    {
        self.lemma_wf();
        match self.find(k) {
            Some(i) => Some(&self.entries[i].1),
            None => None,
        }
    }

    /// Inserts or replaces the entry with key `k`; a new key goes last.
    pub fn insert(&mut self, k: K, v: V)
        ensures
            final(self).map() == old(self).map().insert(k, v),
            old(self).map().dom().contains(k) ==> final(self).seq().len() == old(self).seq().len(),
            !old(self).map().dom().contains(k) ==> final(self).seq() == old(self).seq().push((k, v)),
    {
        self.lemma_wf();
        let ghost s0 = self.entries@;
        match self.find(&k) {
            Some(i) => {
                let mut entries: Vec<(K, V)> = Vec::new();
                std::mem::swap(&mut entries, &mut self.entries);
                entries.set(i, (k, v));
                let ghost s1 = entries@;
                assert(s1 =~= s0.update(i as int, (k, v)));
                proof {
                    assert(distinct_keys(s1));
                    assert forall|x: K| #![auto] entries_map(s1).dom().contains(x) <==> entries_map(
                        s0,
                    ).insert(k, v).dom().contains(x) by {
                        if has_key(s1, x) {
                            let j = choose|j: int| 0 <= j < s1.len() && s1[j].0 == x;
                            if j != i as int {
                                assert(s0[j].0 == x);
                            }
                        }
                        if has_key(s0, x) {
                            let j = choose|j: int| 0 <= j < s0.len() && s0[j].0 == x;
                            if j != i as int {
                                assert(s1[j].0 == x);
                            } else {
                                assert(s1[j].0 == x);
                            }
                        }
                        if x == k {
                            assert(s1[i as int].0 == x);
                        }
                    }
                    assert forall|x: K| #![auto] entries_map(s1).dom().contains(x) implies entries_map(
                        s1,
                    )[x] == entries_map(s0).insert(k, v)[x] by {
                        let j = choose|j: int| 0 <= j < s1.len() && s1[j].0 == x;
                        lemma_entries_map_at(s1, j);
                        if j != i as int {
                            lemma_entries_map_at(s0, j);
                        }
                    }
                    assert(entries_map(s1) =~= entries_map(s0).insert(k, v));
                }
                self.entries = entries;
            },
            None => {
                let mut entries: Vec<(K, V)> = Vec::new();
                std::mem::swap(&mut entries, &mut self.entries);
                entries.push((k, v));
                let ghost s1 = entries@;
                proof {
                    assert(distinct_keys(s1)) by {
                        assert forall|a: int, b: int| 0 <= a < b < s1.len() implies s1[a].0 != s1[b].0 by {
                            if b == s1.len() - 1 {
                                if s1[a].0 == k {
                                    assert(s0[a].0 == k);
                                    assert(has_key(s0, k));
                                }
                            }
                        }
                    }
                    assert forall|x: K| #![auto] entries_map(s1).dom().contains(x) <==> entries_map(
                        s0,
                    ).insert(k, v).dom().contains(x) by {
                        if has_key(s1, x) {
                            let j = choose|j: int| 0 <= j < s1.len() && s1[j].0 == x;
                            if j < s0.len() {
                                assert(s0[j].0 == x);
                            }
                        }
                        if has_key(s0, x) {
                            let j = choose|j: int| 0 <= j < s0.len() && s0[j].0 == x;
                            assert(s1[j].0 == x);
                        }
                        if x == k {
                            assert(s1[s0.len() as int].0 == x);
                        }
                    }
                    assert forall|x: K| #![auto] entries_map(s1).dom().contains(x) implies entries_map(
                        s1,
                    )[x] == entries_map(s0).insert(k, v)[x] by {
                        let j = choose|j: int| 0 <= j < s1.len() && s1[j].0 == x;
                        lemma_entries_map_at(s1, j);
                        if j < s0.len() {
                            lemma_entries_map_at(s0, j);
                        }
                    }
                    assert(entries_map(s1) =~= entries_map(s0).insert(k, v));
                }
                self.entries = entries;
            },
        }
    }

    /// Removes the entry with key `k`, returning its value; the others keep their order.
    pub fn remove(&mut self, k: &K) -> (r: Option<V>)
        ensures
            final(self).map() == old(self).map().remove(*k),
            r matches Some(v) ==> old(self).map().dom().contains(*k) && v == old(self).map()[*k],
            r is None ==> !old(self).map().dom().contains(*k) && final(self).seq() == old(self).seq(),
            r is Some ==> (exists|i: int|
                0 <= i < old(self).seq().len() && old(self).seq()[i].0 == *k && final(self).seq()
                    == old(self).seq().remove(i)),
    {
        self.lemma_wf();
        let ghost s0 = self.entries@;
        match self.find(k) {
            Some(i) => {
                let mut entries: Vec<(K, V)> = Vec::new();
                std::mem::swap(&mut entries, &mut self.entries);
                let (_, v) = entries.remove(i);
                let ghost s1 = entries@;
                proof {
                    lemma_entries_map_at(s0, i as int);
                    assert(distinct_keys(s1)) by {
                        assert forall|a: int, b: int| 0 <= a < b < s1.len() implies s1[a].0 != s1[b].0 by {
                            if a < i {
                                if b < i {
                                    assert(s0[a].0 != s0[b].0);
                                } else {
                                    assert(s0[a].0 != s0[b + 1].0);
                                }
                            } else {
                                assert(s0[a + 1].0 != s0[b + 1].0);
                            }
                        }
                    }
                    assert forall|x: K| #![auto] entries_map(s1).dom().contains(x) <==> entries_map(
                        s0,
                    ).remove(*k).dom().contains(x) by {
                        if has_key(s1, x) {
                            let j = choose|j: int| 0 <= j < s1.len() && s1[j].0 == x;
                            if j < i {
                                assert(s0[j].0 == x);
                                assert(s0[j].0 != s0[i as int].0);
                            } else {
                                assert(s0[j + 1].0 == x);
                                assert(s0[i as int].0 != s0[j + 1].0);
                            }
                        }
                        if has_key(s0, x) && x != *k {
                            let j = choose|j: int| 0 <= j < s0.len() && s0[j].0 == x;
                            if j < i {
                                assert(s1[j].0 == x);
                            } else {
                                assert(j != i);
                                assert(s1[j - 1].0 == x);
                            }
                        }
                    }
                    assert forall|x: K| #![auto] entries_map(s1).dom().contains(x) implies entries_map(
                        s1,
                    )[x] == entries_map(s0).remove(*k)[x] by {
                        let j = choose|j: int| 0 <= j < s1.len() && s1[j].0 == x;
                        lemma_entries_map_at(s1, j);
                        if j < i {
                            lemma_entries_map_at(s0, j);
                        } else {
                            lemma_entries_map_at(s0, j + 1);
                        }
                    }
                    assert(entries_map(s1) =~= entries_map(s0).remove(*k));
                }
                self.entries = entries;
                Some(v)
            },
            None => {
                assert(entries_map(s0).remove(*k) =~= entries_map(s0));
                None
            },
        }
    }
}

} // verus!

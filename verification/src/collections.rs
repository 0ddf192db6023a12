//! Small verified collections standing in for the host's storage maps:
//! a duplicate-free set of ids and an association map keyed by ids.

use vstd::prelude::*;
use vstd::seq_lib::*;

verus! {

/// A finite set of `u64` ids, iterable by index.
#[derive(Debug)]
pub struct IdSet {
    elems: Vec<u64>,
}

impl View for IdSet {
    type V = Set<u64>;

    closed spec fn view(&self) -> Set<u64> {
        self.elems@.to_set()
    }
}

impl IdSet {
    /// The elements in iteration order.
    pub closed spec fn seq(&self) -> Seq<u64> {
        self.elems@
    }

    /// The elements are pairwise distinct.
    pub open spec fn wf(&self) -> bool {
        self.seq().no_duplicates()
    }

    pub proof fn lemma_view_is_seq(&self)
        ensures
            self@ == self.seq().to_set(),
    {
    }

    pub fn new() -> (r: IdSet)
        ensures
            r.wf(),
            r@ == Set::<u64>::empty(),
            r.seq() == Seq::<u64>::empty(),
    {
        let r = IdSet { elems: Vec::new() };
        proof {
            assert(r.elems@.to_set() =~= Set::<u64>::empty());
        }
        r
    }

    pub fn len(&self) -> (r: usize)
        requires
            self.wf(),
        ensures
            r == self@.len(),
            r == self.seq().len(),
    {
        proof {
            self.elems@.unique_seq_to_set();
        }
        self.elems.len()
    }

    pub fn contains(&self, x: u64) -> (r: bool)
        ensures
            r == self@.contains(x),
    {
        let n = self.elems.len();
        let mut i: usize = 0;
        while i < n
            invariant
                n == self.elems.len(),
                i <= n,
                forall|j: int| 0 <= j < i ==> self.elems@[j] != x,
            decreases n - i,
        {
            if self.elems[i] == x {
                return true;
            }
            i += 1;
        }
        proof {
            assert(!self.elems@.to_set().contains(x));
        }
        false
    }

    /// Element at position `i` of the iteration order.
    pub fn elem_at(&self, i: usize) -> (r: u64)
        requires
            i < self.seq().len(),
        ensures
            r == self.seq()[i as int],
            self@.contains(r),
    {
        let r = self.elems[i];
        proof {
            assert(self.elems@.to_set().contains(r));
        }
        r
    }

    /// Inserts `x`; a no-op when already present.
    pub fn insert(&mut self, x: u64)
        requires
            old(self).wf(),
        ensures
            final(self).wf(),
            final(self)@ == old(self)@.insert(x),
            old(self)@.contains(x) ==> final(self).seq() == old(self).seq(),
            !old(self)@.contains(x) ==> final(self).seq() == old(self).seq().push(x),
    {
        if !self.contains(x) {
            proof {
                self.elems@.lemma_push_to_set_commute(x);
            }
            self.elems.push(x);
        } else {
            proof {
                assert(old(self)@.insert(x) =~= old(self)@);
            }
        }
    }

    /// Removes `x`; a no-op when absent.
    pub fn remove(&mut self, x: u64)
        requires
            old(self).wf(),
        ensures
            final(self).wf(),
            final(self)@ == old(self)@.remove(x),
    {
        let n = self.elems.len();
        let mut i: usize = 0;
        while i < n
            invariant
                n == self.elems.len(),
                i <= n,
                self.elems@ == old(self).elems@,
                self.elems@.no_duplicates(),
                forall|j: int| 0 <= j < i ==> self.elems@[j] != x,
            decreases n - i,
        {
            if self.elems[i] == x {
                proof {
                    lemma_remove_from_distinct_seq(self.elems@, i as int);
                }
                self.elems.remove(i);
                return ;
            }
            i += 1;
        }
        proof {
            assert(!self.elems@.to_set().contains(x));
            assert(old(self)@.remove(x) =~= old(self)@);
        }
    }
}

/// Removing position `i` from a duplicate-free sequence removes exactly that
/// element from the set of elements.
proof fn lemma_remove_from_distinct_seq(s: Seq<u64>, i: int)
    requires
        s.no_duplicates(),
        0 <= i < s.len(),
    ensures
        s.remove(i).no_duplicates(),
        s.remove(i).to_set() == s.to_set().remove(s[i]),
    decreases s.len(),
{
    let r = s.remove(i);
    assert forall|x: u64| r.to_set().contains(x) implies s.to_set().remove(s[i]).contains(x) by {
        let j = choose|j: int| 0 <= j < r.len() && r[j] == x;
        if j < i {
            assert(s[j] == x);
        } else {
            assert(s[j + 1] == x);
        }
        assert(s.to_set().contains(x));
        assert(x != s[i]);
    }
    assert forall|x: u64| s.to_set().remove(s[i]).contains(x) implies r.to_set().contains(x) by {
        let j = choose|j: int| 0 <= j < s.len() && s[j] == x;
        if j < i {
            assert(r[j] == x);
        } else {
            assert(j != i);
            assert(r[j - 1] == x);
        }
        assert(r.to_set().contains(x));
    }
    assert(r.to_set() =~= s.to_set().remove(s[i]));
}

/// The keys of an association sequence, in order.
pub open spec fn key_seq<K, V>(s: Seq<(K, V)>) -> Seq<K> {
    s.map_values(|p: (K, V)| p.0)
}

/// The map an association sequence denotes; later entries shadow earlier ones.
pub open spec fn map_of<K, V>(s: Seq<(K, V)>) -> Map<K, V>
    decreases s.len(),
{
    if s.len() == 0 {
        Map::empty()
    } else {
        map_of(s.drop_last()).insert(s.last().0, s.last().1)
    }
}

pub proof fn lemma_map_of_dom<K, V>(s: Seq<(K, V)>)
    ensures
        map_of(s).dom() == key_seq(s).to_set(),
        map_of(s).dom().finite(),
    decreases s.len(),
{
    if s.len() == 0 {
        assert(map_of(s).dom() =~= key_seq(s).to_set());
    } else {
        lemma_map_of_dom(s.drop_last());
        assert(key_seq(s).drop_last() =~= key_seq(s.drop_last()));
        assert forall|k: K| key_seq(s).to_set().contains(k) implies map_of(s).dom().contains(
            k,
        ) by {
            let j = choose|j: int| 0 <= j < key_seq(s).len() && key_seq(s)[j] == k;
            if j < s.len() - 1 {
                assert(key_seq(s.drop_last())[j] == k);
                assert(key_seq(s.drop_last()).to_set().contains(k));
            }
        }
        assert forall|k: K| map_of(s).dom().contains(k) implies key_seq(s).to_set().contains(
            k,
        ) by {
            if k == s.last().0 {
                assert(key_seq(s)[s.len() - 1] == k);
            } else {
                let j = choose|j: int|
                    0 <= j < key_seq(s.drop_last()).len() && key_seq(s.drop_last())[j] == k;
                assert(key_seq(s)[j] == k);
            }
        }
        assert(map_of(s).dom() =~= key_seq(s).to_set());
    }
}

pub proof fn lemma_map_of_index<K, V>(s: Seq<(K, V)>, i: int)
    requires
        key_seq(s).no_duplicates(),
        0 <= i < s.len(),
    ensures
        map_of(s).dom().contains(s[i].0),
        map_of(s)[s[i].0] == s[i].1,
    decreases s.len(),
{
    assert(key_seq(s).drop_last() =~= key_seq(s.drop_last()));
    if i == s.len() - 1 {
    } else {
        lemma_map_of_index(s.drop_last(), i);
        assert(key_seq(s)[i] == s[i].0);
        assert(key_seq(s)[s.len() - 1] == s.last().0);
        assert(s[i].0 != s.last().0);
    }
}

pub proof fn lemma_map_of_update<K, V>(s: Seq<(K, V)>, i: int, v: V)
    requires
        key_seq(s).no_duplicates(),
        0 <= i < s.len(),
    ensures
        map_of(s.update(i, (s[i].0, v))) == map_of(s).insert(s[i].0, v),
        key_seq(s.update(i, (s[i].0, v))) == key_seq(s),
    decreases s.len(),
{
    let t = s.update(i, (s[i].0, v));
    assert(key_seq(t) =~= key_seq(s));
    assert(key_seq(s).drop_last() =~= key_seq(s.drop_last()));
    if i == s.len() - 1 {
        assert(t.drop_last() =~= s.drop_last());
        assert(map_of(t) == map_of(s.drop_last()).insert(s[i].0, v));
        assert(map_of(s).insert(s[i].0, v) =~= map_of(s.drop_last()).insert(s[i].0, v));
    } else {
        assert(t.drop_last() =~= s.drop_last().update(i, (s[i].0, v)));
        lemma_map_of_update(s.drop_last(), i, v);
        assert(key_seq(s)[i] == s[i].0);
        assert(key_seq(s)[s.len() - 1] == s.last().0);
        assert(s[i].0 != s.last().0);
        assert(map_of(t) == map_of(s.drop_last()).insert(s[i].0, v).insert(
            s.last().0,
            s.last().1,
        ));
        assert(map_of(s.drop_last()).insert(s[i].0, v).insert(s.last().0, s.last().1)
            =~= map_of(s).insert(s[i].0, v));
    }
}

pub proof fn lemma_map_of_remove<K, V>(s: Seq<(K, V)>, i: int)
    requires
        key_seq(s).no_duplicates(),
        0 <= i < s.len(),
    ensures
        map_of(s.remove(i)) == map_of(s).remove(s[i].0),
        key_seq(s.remove(i)) == key_seq(s).remove(i),
    decreases s.len(),
{
    let t = s.remove(i);
    assert(key_seq(t) =~= key_seq(s).remove(i));
    assert(key_seq(s).drop_last() =~= key_seq(s.drop_last()));
    if i == s.len() - 1 {
        assert(t =~= s.drop_last());
        lemma_map_of_dom(s.drop_last());
        assert(key_seq(s)[i] == s[i].0);
        assert(!key_seq(s.drop_last()).to_set().contains(s[i].0)) by {
            if key_seq(s.drop_last()).to_set().contains(s[i].0) {
                let j = choose|j: int|
                    0 <= j < key_seq(s.drop_last()).len() && key_seq(s.drop_last())[j] == s[i].0;
                assert(key_seq(s)[j] == s[i].0);
            }
        }
        assert(map_of(s).remove(s[i].0) =~= map_of(s.drop_last()));
    } else {
        assert(t.drop_last() =~= s.drop_last().remove(i));
        lemma_map_of_remove(s.drop_last(), i);
        assert(key_seq(s)[i] == s[i].0);
        assert(key_seq(s)[s.len() - 1] == s.last().0);
        assert(s[i].0 != s.last().0);
        assert(map_of(t) == map_of(s.drop_last()).remove(s[i].0).insert(s.last().0, s.last().1));
        assert(map_of(s.drop_last()).remove(s[i].0).insert(s.last().0, s.last().1)
            =~= map_of(s).remove(s[i].0));
    }
}

/// An association map from `u64` ids to values, with distinct keys.
#[derive(Debug)]
pub struct KvMap<V> {
    entries: Vec<(u64, V)>,
}

impl<V> View for KvMap<V> {
    type V = Map<u64, V>;

    closed spec fn view(&self) -> Map<u64, V> {
        map_of(self.entries@)
    }
}

impl<V> KvMap<V> {
    /// The entries in iteration order.
    pub closed spec fn entry_seq(&self) -> Seq<(u64, V)> {
        self.entries@
    }

    /// The keys are pairwise distinct.
    pub open spec fn wf(&self) -> bool {
        key_seq(self.entry_seq()).no_duplicates()
    }

    /// Every entry is the map's value at its key.
    pub proof fn lemma_entries(&self)
        requires
            self.wf(),
        ensures
            self@.dom() == key_seq(self.entry_seq()).to_set(),
            self@.dom().finite(),
            self@.dom().len() == self.entry_seq().len(),
            forall|i: int|
                0 <= i < self.entry_seq().len() ==> self@.dom().contains(
                    (#[trigger] self.entry_seq()[i]).0,
                ) && self@[self.entry_seq()[i].0] == self.entry_seq()[i].1,
    {
        lemma_map_of_dom(self.entries@);
        key_seq(self.entries@).unique_seq_to_set();
        assert(key_seq(self.entries@).len() == self.entries@.len());
        assert forall|i: int| 0 <= i < self.entry_seq().len() implies self@.dom().contains(
            (#[trigger] self.entry_seq()[i]).0,
        ) && self@[self.entry_seq()[i].0] == self.entry_seq()[i].1 by {
            lemma_map_of_index(self.entries@, i);
        }
    }

    pub fn new() -> (r: KvMap<V>)
        ensures
            r.wf(),
            r@ == Map::<u64, V>::empty(),
            r.entry_seq() == Seq::<(u64, V)>::empty(),
    {
        KvMap { entries: Vec::new() }
    }

    pub fn len(&self) -> (r: usize)
        requires
            self.wf(),
        ensures
            r == self@.dom().len(),
            r == self.entry_seq().len(),
    {
        proof {
            self.lemma_entries();
        }
        self.entries.len()
    }

    /// Index of the entry holding `k`, if any.
    fn find(&self, k: u64) -> (r: Option<usize>)
        ensures
            match r {
                Some(i) => i < self.entry_seq().len() && self.entry_seq()[i as int].0 == k,
                None => forall|j: int|
                    0 <= j < self.entry_seq().len() ==> (#[trigger] self.entry_seq()[j]).0 != k,
            },
    {
        let n = self.entries.len();
        let mut i: usize = 0;
        while i < n
            invariant
                n == self.entries.len(),
                i <= n,
                forall|j: int| 0 <= j < i ==> (#[trigger] self.entries@[j]).0 != k,
            decreases n - i,
        {
            if self.entries[i].0 == k {
                return Some(i);
            }
            i += 1;
        }
        None
    }

    pub fn contains_key(&self, k: u64) -> (r: bool)
        requires
            self.wf(),
        ensures
            r == self@.dom().contains(k),
    {
        proof {
            self.lemma_entries();
        }
        match self.find(k) {
            Some(_) => true,
            None => {
                proof {
                    if self@.dom().contains(k) {
                        let j = choose|j: int|
                            0 <= j < key_seq(self.entries@).len() && key_seq(self.entries@)[j]
                                == k;
                        assert(self.entries@[j].0 == k);
                    }
                }
                false
            },
        }
    }

    pub fn get(&self, k: u64) -> (r: Option<&V>)
        requires
            self.wf(),
        ensures
            match r {
                Some(v) => self@.dom().contains(k) && *v == self@[k],
                None => !self@.dom().contains(k),
            },
    {
        proof {
            self.lemma_entries();
        }
        match self.find(k) {
            Some(i) => Some(&self.entries[i].1),
            None => {
                proof {
                    if self@.dom().contains(k) {
                        let j = choose|j: int|
                            0 <= j < key_seq(self.entries@).len() && key_seq(self.entries@)[j]
                                == k;
                        assert(self.entries@[j].0 == k);
                    }
                }
                None
            },
        }
    }

    /// Inserts or replaces the value under `k`.
    pub fn insert(&mut self, k: u64, v: V)
        requires
            old(self).wf(),
        ensures
            final(self).wf(),
            final(self)@ == old(self)@.insert(k, v),
            old(self)@.dom().contains(k) ==> final(self).entry_seq().len()
                == old(self).entry_seq().len(),
            !old(self)@.dom().contains(k) ==> final(self).entry_seq().len() == old(self).entry_seq().len() + 1,
    {
        proof {
            self.lemma_entries();
        }
        match self.find(k) {
            Some(i) => {
                proof {
                    lemma_map_of_update(self.entries@, i as int, v);
                }
                let ghost s0 = self.entries@;
                self.entries.remove(i);
                self.entries.insert(i, (k, v));
                proof {
                    assert(self.entries@ =~= s0.update(i as int, (k, v)));
                }
            },
            None => {
                proof {
                    if old(self)@.dom().contains(k) {
                        let j = choose|j: int|
                            0 <= j < key_seq(self.entries@).len() && key_seq(self.entries@)[j]
                                == k;
                        assert(self.entries@[j].0 == k);
                    }
                    assert(key_seq(self.entries@.push((k, v))) =~= key_seq(self.entries@).push(
                        k,
                    ));
                    key_seq(self.entries@).unique_seq_to_set();
                }
                let ghost s0 = self.entries@;
                self.entries.push((k, v));
                proof {
                    assert(self.entries@.drop_last() =~= s0);
                    assert(self.entries@.last() == (k, v));
                }
            },
        }
    }

    /// Removes the entry under `k`, handing its value back.
    pub fn remove_key(&mut self, k: u64) -> (r: Option<V>)
        requires
            old(self).wf(),
        ensures
            final(self).wf(),
            final(self)@ == old(self)@.remove(k),
            match r {
                Some(v) => old(self)@.dom().contains(k) && v == old(self)@[k],
                None => !old(self)@.dom().contains(k),
            },
    {
        proof {
            self.lemma_entries();
        }
        match self.find(k) {
            Some(i) => {
                proof {
                    lemma_map_of_remove(self.entries@, i as int);
                    key_seq(self.entries@).unique_seq_to_set();
                }
                let (_, v) = self.entries.remove(i);
                Some(v)
            },
            None => {
                proof {
                    if self@.dom().contains(k) {
                        let j = choose|j: int|
                            0 <= j < key_seq(self.entries@).len() && key_seq(self.entries@)[j]
                                == k;
                        assert(self.entries@[j].0 == k);
                    }
                    assert(old(self)@.remove(k) =~= old(self)@);
                }
                None
            },
        }
    }

    /// Removes and hands back the first entry of the iteration order.
    pub fn pop_first(&mut self) -> (r: Option<(u64, V)>)
        requires
            old(self).wf(),
        ensures
            final(self).wf(),
            match r {
                Some(e) => old(self).entry_seq().len() > 0 && e == old(self).entry_seq()[0]
                    && final(self).entry_seq() == old(self).entry_seq().drop_first() && final(self)@ == old(self)@.remove(e.0),
                None => old(self).entry_seq().len() == 0 && *final(self) == *old(self),
            },
    {
        if self.entries.len() == 0 {
            return None;
        }
        proof {
            lemma_map_of_remove(self.entries@, 0);
        }
        let e = self.entries.remove(0);
        proof {
            assert(self.entries@ =~= old(self).entries@.drop_first());
            assert(key_seq(self.entries@) =~= key_seq(old(self).entries@).remove(0));
            let ks0 = key_seq(old(self).entries@);
            let ks = key_seq(self.entries@);
            assert forall|a: int, b: int| 0 <= a < b < ks.len() implies ks[a] != ks[b] by {
                assert(ks[a] == ks0[a + 1]);
                assert(ks[b] == ks0[b + 1]);
            }
        }
        Some(e)
    }

    /// The entry at position `i` of the iteration order.
    pub fn entry_at(&self, i: usize) -> (r: (u64, &V))
        requires
            self.wf(),
            i < self.entry_seq().len(),
        ensures
            r.0 == self.entry_seq()[i as int].0,
            *r.1 == self.entry_seq()[i as int].1,
            self@.dom().contains(r.0),
            self@[r.0] == *r.1,
    {
        proof {
            self.lemma_entries();
        }
        let e = &self.entries[i];
        (e.0, &e.1)
    }
}

} // verus!

//! The voucher store: creation vouchers keyed by class and controller.

use vstd::prelude::*;
use crate::collections::key_seq;
use crate::collections::lemma_map_of_dom;
use crate::collections::lemma_map_of_index;
use crate::collections::lemma_map_of_update;
use crate::collections::map_of;
use crate::permissions::EntityController;
use crate::permissions::EntityCreationVoucher;
use crate::ClassId;

verus! {

/// The key of a creation voucher: one class, one controller.
#[derive(Clone, Copy, Debug, PartialEq, Eq, Structural)]
pub struct VoucherKey {
    pub class_id: ClassId,
    pub controller: EntityController,
}

/// An association map from voucher keys to vouchers, with distinct keys.
#[derive(Debug)]
pub struct VoucherMap {
    entries: Vec<(VoucherKey, EntityCreationVoucher)>,
}

impl View for VoucherMap {
    type V = Map<VoucherKey, EntityCreationVoucher>;

    closed spec fn view(&self) -> Map<VoucherKey, EntityCreationVoucher> {
        map_of(self.entries@)
    }
}

impl VoucherMap {
    /// The entries in iteration order.
    pub closed spec fn entry_seq(&self) -> Seq<(VoucherKey, EntityCreationVoucher)> {
        self.entries@
    }

    /// The keys are pairwise distinct.
    pub open spec fn wf(&self) -> bool {
        key_seq(self.entry_seq()).no_duplicates()
    }

    pub fn new() -> (r: VoucherMap)
        ensures
            r.wf(),
            r@ == Map::<VoucherKey, EntityCreationVoucher>::empty(),
    {
        VoucherMap { entries: Vec::new() }
    }

    fn find(&self, k: VoucherKey) -> (r: Option<usize>)
        ensures
            match r {
                Some(i) => i < self.entry_seq().len() && self.entry_seq()[i as int].0 == k,
                None => forall|j: int|
                    0 <= j < self.entry_seq().len() ==> (#[trigger] self.entry_seq()[j]).0 != k,
            },
    {
        let n = self.entries.len();
        let mut i: usize = 0;
        while i < n
            invariant
                n == self.entries.len(),
                i <= n,
                forall|j: int| 0 <= j < i ==> (#[trigger] self.entries@[j]).0 != k,
            decreases n - i,
        {
            let e = &self.entries[i];
            if e.0.class_id == k.class_id && e.0.controller == k.controller {
                proof {
                    assert(self.entries@[i as int].0 == k);
                }
                return Some(i);
            }
            i += 1;
        }
        None
    }

    proof fn lemma_absent(&self, k: VoucherKey)
        requires
            forall|j: int|
                0 <= j < self.entry_seq().len() ==> (#[trigger] self.entry_seq()[j]).0 != k,
        ensures
            !self@.dom().contains(k),
    {
        lemma_map_of_dom(self.entries@);
        if self@.dom().contains(k) {
            let ks = key_seq(self.entries@);
            assert(ks.to_set().contains(k));
            assert(ks.contains(k));
            let j = choose|j: int| 0 <= j < ks.len() && ks[j] == k;
            assert(ks[j] == self.entries@[j].0);
            assert(self.entry_seq()[j].0 != k);
            assert(false);
        }
    }

    pub fn contains_key(&self, k: VoucherKey) -> (r: bool)
        requires
            self.wf(),
        ensures
            r == self@.dom().contains(k),
    {
        match self.find(k) {
            Some(i) => {
                proof {
                    lemma_map_of_index(self.entries@, i as int);
                }
                true
            },
            None => {
                proof {
                    self.lemma_absent(k);
                }
                false
            },
        }
    }

    pub fn get(&self, k: VoucherKey) -> (r: Option<&EntityCreationVoucher>)
        requires
            self.wf(),
        ensures
            match r {
                Some(v) => self@.dom().contains(k) && *v == self@[k],
                None => !self@.dom().contains(k),
            },
    {
        match self.find(k) {
            Some(i) => {
                proof {
                    lemma_map_of_index(self.entries@, i as int);
                }
                Some(&self.entries[i].1)
            },
            None => {
                proof {
                    self.lemma_absent(k);
                }
                None
            },
        }
    }

    /// Inserts or replaces the voucher under `k`.
    pub fn insert(&mut self, k: VoucherKey, v: EntityCreationVoucher)
        requires
            old(self).wf(),
        ensures
            final(self).wf(),
            final(self)@ == old(self)@.insert(k, v),
    {
        match self.find(k) {
            Some(i) => {
                proof {
                    lemma_map_of_update(self.entries@, i as int, v);
                }
                let ghost s0 = self.entries@;
                self.entries.remove(i);
                self.entries.insert(i, (k, v));
                proof {
                    assert(self.entries@ =~= s0.update(i as int, (k, v)));
                }
            },
            None => {
                proof {
                    self.lemma_absent(k);
                    assert(key_seq(self.entries@.push((k, v))) =~= key_seq(self.entries@).push(
                        k,
                    ));
                    lemma_map_of_dom(self.entries@);
                }
                let ghost s0 = self.entries@;
                self.entries.push((k, v));
                proof {
                    assert(self.entries@.drop_last() =~= s0);
                    assert(self.entries@.last() == (k, v));
                    assert(!key_seq(s0).to_set().contains(k));
                    key_seq(s0).unique_seq_to_set();
                }
            },
        }
    }
}

} // verus!

//! The reference-counter engine: delta maps computed before the mutation
//! point and applied, with checked arithmetic, after it.

use vstd::prelude::*;
use vstd::multiset::Multiset;
use crate::collections::key_seq;
use crate::collections::KvMap;
use crate::entity::Entity;
use crate::errors::Error;
use crate::store::Store;
use crate::EntityId;
use crate::ReferenceCounter;

verus! {

/// Two entities that differ at most in their reference counters.
pub open spec fn rc_only_change(a: Entity, b: Entity) -> bool {
    &&& b.entity_permission == a.entity_permission
    &&& b.class_id == a.class_id
    &&& b.supported_schemas == a.supported_schemas
    &&& b.values == a.values
}

/// The delta a map assigns to an id; zero when absent.
pub open spec fn spec_rc_delta(m: Map<u64, ReferenceCounter>, id: u64) -> int {
    if m.dom().contains(id) {
        m[id] as int
    } else {
        0
    }
}

impl Store {
    /// All store fields but the entity map are unchanged, entity ids are
    /// unchanged, and every entity kept everything but its counters.
    pub open spec fn spec_only_rcs_changed(&self, other: &Store) -> bool {
        &&& other.entity_by_id@.dom() == self.entity_by_id@.dom()
        &&& forall|id: EntityId|
            #[trigger] self.entity_by_id@.dom().contains(id) ==> rc_only_change(
                self.entity_by_id@[id],
                other.entity_by_id@[id],
            )
        &&& other.class_by_id == self.class_by_id
        &&& other.curator_group_by_id == self.curator_group_by_id
        &&& other.entity_creation_vouchers == self.entity_creation_vouchers
        &&& other.next_curator_group_id == self.next_curator_group_id
        &&& other.next_class_id == self.next_class_id
        &&& other.next_entity_id == self.next_entity_id
        &&& other.events == self.events
        &&& other.config == self.config
        &&& other.authority == self.authority
    }

    /// Raises the counters of every entity named in `deltas` that exists;
    /// with `same_owner` both counters grow, else only the total one.
    /// Succeeds whenever no total counter would leave its range; refuses
    /// to wrap, and on saturation some deltas may already be applied.
    pub(crate) fn increment_entity_rcs(
        &mut self,
        deltas: &KvMap<ReferenceCounter>,
        same_owner: bool,
    ) -> (r: Result<(), Error>)
        requires
            old(self).wf(),
            deltas.wf(),
        ensures
            final(self).wf(),
            old(self).spec_only_rcs_changed(final(self)),
            r is Err ==> r == Result::<(), Error>::Err(Error::InternalInvariantBroken),
            (forall|id: EntityId|
                #[trigger] old(self).entity_by_id@.dom().contains(id) ==> old(
                    self,
                ).entity_by_id@[id].reference_count + spec_rc_delta(deltas@, id)
                    <= ReferenceCounter::MAX) ==> r is Ok,
            r is Ok ==> forall|id: EntityId|
                #[trigger] old(self).entity_by_id@.dom().contains(id) ==> {
                    &&& final(self).entity_by_id@[id].reference_count == old(self).entity_by_id@[id].reference_count + spec_rc_delta(deltas@, id)
                    &&& final(self).entity_by_id@[id].inbound_same_owner_references_from_other_entities_count
                        == old(self).entity_by_id@[id].inbound_same_owner_references_from_other_entities_count + (
                    if same_owner {
                        spec_rc_delta(deltas@, id)
                    } else {
                        0
                    })
                },
    {
        let n = deltas.len();
        let mut i: usize = 0;
        while i < n
            invariant
                deltas.wf(),
                n == deltas.entry_seq().len(),
                i <= n,
                old(self).wf(),
                self.wf(),
                old(self).spec_only_rcs_changed(self),
                forall|j: int|
                    0 <= j < i ==> {
                        let id = (#[trigger] deltas.entry_seq()[j]).0;
                        old(self).entity_by_id@.dom().contains(id) ==> {
                            &&& self.entity_by_id@[id].reference_count == old(self).entity_by_id@[id].reference_count + deltas.entry_seq()[j].1
                            &&& self.entity_by_id@[
                                id
                            ].inbound_same_owner_references_from_other_entities_count == old(self).entity_by_id@[
                                id
                            ].inbound_same_owner_references_from_other_entities_count + (
                            if same_owner {
                                deltas.entry_seq()[j].1 as int
                            } else {
                                0
                            })
                        }
                    },
                forall|id: EntityId|
                    old(self).entity_by_id@.dom().contains(id) && (forall|j: int|
                        0 <= j < i ==> (#[trigger] deltas.entry_seq()[j]).0 != id) ==> (
                    #[trigger] self.entity_by_id@[id]) == old(self).entity_by_id@[id],
            decreases n - i,
        {
            let ghost pre = self.entity_by_id@;
            let ghost spre = *self;
            let (id, d) = deltas.entry_at(i);
            let d = *d;
            match self.entity_by_id.remove_key(id) {
                Some(mut entity) => {
                    if entity.reference_count as u64 + d as u64 > ReferenceCounter::MAX as u64 {
                        self.entity_by_id.insert(id, entity);
                        proof {
                            assert(self.entity_by_id@ =~= pre);
                            Store::lemma_counts_unchanged(spre, *self);
                            deltas.lemma_entries();
                            let ks = key_seq(deltas.entry_seq());
                            assert forall|j: int| 0 <= j < i implies (
                            #[trigger] deltas.entry_seq()[j]).0 != id by {
                                assert(ks[j] == deltas.entry_seq()[j].0);
                                assert(ks[i as int] == id);
                            }
                            assert(entity == old(self).entity_by_id@[id]);
                            assert(spec_rc_delta(deltas@, id) == d);
                            assert(old(self).entity_by_id@[id].reference_count + spec_rc_delta(
                                deltas@,
                                id,
                            ) > ReferenceCounter::MAX);
                        }
                        return Err(Error::InternalInvariantBroken);
                    }
                    entity.reference_count = entity.reference_count + d;
                    if same_owner {
                        entity.inbound_same_owner_references_from_other_entities_count =
                        entity.inbound_same_owner_references_from_other_entities_count + d;
                    }
                    self.entity_by_id.insert(id, entity);
                    proof {
                        assert(self.entity_by_id@ =~= pre.insert(id, self.entity_by_id@[id]));
                        assert(self.entity_by_id@.dom() =~= pre.dom());
                    }
                },
                None => {
                    proof {
                        assert(self.entity_by_id@ =~= pre.remove(id));
                        assert(self.entity_by_id@ =~= pre);
                    }
                },
            }
            proof {
                let ks = key_seq(deltas.entry_seq());
                assert forall|j: int| 0 <= j < i implies (#[trigger] deltas.entry_seq()[j]).0
                    != deltas.entry_seq()[i as int].0 by {
                    assert(ks[j] == deltas.entry_seq()[j].0);
                    assert(ks[i as int] == deltas.entry_seq()[i as int].0);
                }
                Store::lemma_counts_unchanged(spre, *self);
            }
            i += 1;
        }
        proof {
            deltas.lemma_entries();
            assert forall|id: EntityId| #[trigger] old(self).entity_by_id@.dom().contains(
                id,
            ) implies {
                &&& self.entity_by_id@[id].reference_count == old(self).entity_by_id@[id].reference_count + spec_rc_delta(deltas@, id)
                &&& self.entity_by_id@[
                    id
                ].inbound_same_owner_references_from_other_entities_count == old(self).entity_by_id@[id].inbound_same_owner_references_from_other_entities_count + (
                if same_owner {
                    spec_rc_delta(deltas@, id)
                } else {
                    0
                })
            } by {
                if deltas@.dom().contains(id) {
                    let ks = key_seq(deltas.entry_seq());
                    assert(ks.to_set().contains(id));
                    assert(ks.contains(id));
                    let j = choose|j: int| 0 <= j < ks.len() && ks[j] == id;
                    assert(deltas.entry_seq()[j].0 == id);
                    assert(deltas@[id] == deltas.entry_seq()[j].1);
                } else {
                    assert forall|j: int| 0 <= j < n implies (#[trigger] deltas.entry_seq()[j]).0
                        != id by {
                        if deltas.entry_seq()[j].0 == id {
                            assert(deltas@.dom().contains(deltas.entry_seq()[j].0));
                        }
                    }
                    assert(self.entity_by_id@[id] == old(self).entity_by_id@[id]);
                }
            }
        }
        Ok(())
    }

    /// Lowers the counters of every entity named in `deltas` that exists;
    /// with `same_owner` both counters shrink, else only the total one.
    /// Succeeds whenever every delta fits under the counter it shrinks —
    /// the same-owner counter, or the total counter's share above it.
    /// Refuses to underflow or to leave the same-owner counter above the
    /// total: on such a fault some deltas may already be applied.
    pub(crate) fn decrement_entity_rcs(
        &mut self,
        deltas: &KvMap<ReferenceCounter>,
        same_owner: bool,
    ) -> (r: Result<(), Error>)
        requires
            old(self).wf(),
            deltas.wf(),
        ensures
            final(self).wf(),
            old(self).spec_only_rcs_changed(final(self)),
            r is Err ==> r == Result::<(), Error>::Err(Error::InternalInvariantBroken),
            (forall|id: EntityId|
                #[trigger] old(self).entity_by_id@.dom().contains(id) ==> spec_rc_delta(
                    deltas@,
                    id,
                ) <= (if same_owner {
                    old(self).entity_by_id@[
                        id
                    ].inbound_same_owner_references_from_other_entities_count as int
                } else {
                    old(self).entity_by_id@[id].reference_count - old(self).entity_by_id@[
                        id
                    ].inbound_same_owner_references_from_other_entities_count
                })) ==> r is Ok,
            r is Ok ==> forall|id: EntityId|
                #[trigger] old(self).entity_by_id@.dom().contains(id) ==> {
                    &&& final(self).entity_by_id@[id].reference_count == old(self).entity_by_id@[id].reference_count - spec_rc_delta(deltas@, id)
                    &&& final(self).entity_by_id@[id].inbound_same_owner_references_from_other_entities_count
                        == old(self).entity_by_id@[id].inbound_same_owner_references_from_other_entities_count - (
                    if same_owner {
                        spec_rc_delta(deltas@, id)
                    } else {
                        0
                    })
                },
    {
        let n = deltas.len();
        let mut i: usize = 0;
        while i < n
            invariant
                deltas.wf(),
                n == deltas.entry_seq().len(),
                i <= n,
                old(self).wf(),
                self.wf(),
                old(self).spec_only_rcs_changed(self),
                forall|j: int|
                    0 <= j < i ==> {
                        let id = (#[trigger] deltas.entry_seq()[j]).0;
                        old(self).entity_by_id@.dom().contains(id) ==> {
                            &&& self.entity_by_id@[id].reference_count == old(self).entity_by_id@[id].reference_count - deltas.entry_seq()[j].1
                            &&& self.entity_by_id@[
                                id
                            ].inbound_same_owner_references_from_other_entities_count == old(self).entity_by_id@[
                                id
                            ].inbound_same_owner_references_from_other_entities_count - (
                            if same_owner {
                                deltas.entry_seq()[j].1 as int
                            } else {
                                0
                            })
                        }
                    },
                forall|id: EntityId|
                    old(self).entity_by_id@.dom().contains(id) && (forall|j: int|
                        0 <= j < i ==> (#[trigger] deltas.entry_seq()[j]).0 != id) ==> (
                    #[trigger] self.entity_by_id@[id]) == old(self).entity_by_id@[id],
            decreases n - i,
        {
            let ghost pre = self.entity_by_id@;
            let ghost spre = *self;
            let (id, d) = deltas.entry_at(i);
            let d = *d;
            match self.entity_by_id.remove_key(id) {
                Some(mut entity) => {
                    let same = entity.inbound_same_owner_references_from_other_entities_count;
                    let total = entity.reference_count;
                    let fault = if same_owner {
                        d > same
                    } else {
                        d > total || (total - d) < same
                    };
                    if fault {
                        self.entity_by_id.insert(id, entity);
                        proof {
                            assert(self.entity_by_id@ =~= pre);
                            Store::lemma_counts_unchanged(spre, *self);
                            deltas.lemma_entries();
                            let ks = key_seq(deltas.entry_seq());
                            assert forall|j: int| 0 <= j < i implies (
                            #[trigger] deltas.entry_seq()[j]).0 != id by {
                                assert(ks[j] == deltas.entry_seq()[j].0);
                                assert(ks[i as int] == id);
                            }
                            assert(entity == old(self).entity_by_id@[id]);
                            assert(spec_rc_delta(deltas@, id) == d);
                            assert(entity.inbound_same_owner_references_from_other_entities_count
                                <= entity.reference_count);
                        }
                        return Err(Error::InternalInvariantBroken);
                    }
                    entity.reference_count = entity.reference_count - d;
                    if same_owner {
                        entity.inbound_same_owner_references_from_other_entities_count =
                        entity.inbound_same_owner_references_from_other_entities_count - d;
                    }
                    self.entity_by_id.insert(id, entity);
                    proof {
                        assert(self.entity_by_id@ =~= pre.insert(id, self.entity_by_id@[id]));
                        assert(self.entity_by_id@.dom() =~= pre.dom());
                    }
                },
                None => {
                    proof {
                        assert(self.entity_by_id@ =~= pre.remove(id));
                        assert(self.entity_by_id@ =~= pre);
                    }
                },
            }
            proof {
                let ks = key_seq(deltas.entry_seq());
                assert forall|j: int| 0 <= j < i implies (#[trigger] deltas.entry_seq()[j]).0
                    != deltas.entry_seq()[i as int].0 by {
                    assert(ks[j] == deltas.entry_seq()[j].0);
                    assert(ks[i as int] == deltas.entry_seq()[i as int].0);
                }
                Store::lemma_counts_unchanged(spre, *self);
            }
            i += 1;
        }
        proof {
            deltas.lemma_entries();
            assert forall|id: EntityId| #[trigger] old(self).entity_by_id@.dom().contains(
                id,
            ) implies {
                &&& self.entity_by_id@[id].reference_count == old(self).entity_by_id@[id].reference_count - spec_rc_delta(deltas@, id)
                &&& self.entity_by_id@[
                    id
                ].inbound_same_owner_references_from_other_entities_count == old(self).entity_by_id@[id].inbound_same_owner_references_from_other_entities_count - (
                if same_owner {
                    spec_rc_delta(deltas@, id)
                } else {
                    0
                })
            } by {
                if deltas@.dom().contains(id) {
                    let ks = key_seq(deltas.entry_seq());
                    assert(ks.to_set().contains(id));
                    assert(ks.contains(id));
                    let j = choose|j: int| 0 <= j < ks.len() && ks[j] == id;
                    assert(deltas.entry_seq()[j].0 == id);
                    assert(deltas@[id] == deltas.entry_seq()[j].1);
                } else {
                    assert forall|j: int| 0 <= j < n implies (#[trigger] deltas.entry_seq()[j]).0
                        != id by {
                        if deltas.entry_seq()[j].0 == id {
                            assert(deltas@.dom().contains(deltas.entry_seq()[j].0));
                        }
                    }
                    assert(self.entity_by_id@[id] == old(self).entity_by_id@[id]);
                }
            }
        }
        Ok(())
    }

    /// Adds one per occurrence in `ids` to the delta map: afterwards each
    /// id's delta has grown by exactly its number of occurrences.
    /// Succeeds whenever no delta would leave the counter's range.
    pub(crate) fn fill_in_entity_rcs_map(
        ids: &Vec<EntityId>,
        deltas: &mut KvMap<ReferenceCounter>,
    ) -> (r: Result<(), Error>)
        requires
            old(deltas).wf(),
        ensures
            final(deltas).wf(),
            r is Err ==> r == Result::<(), Error>::Err(Error::InternalInvariantBroken),
            r is Ok ==> forall|id: EntityId|
                spec_rc_delta(#[trigger] final(deltas)@, id) == spec_rc_delta(old(deltas)@, id)
                    + ids@.to_multiset().count(id),
            (forall|id: EntityId|
                spec_rc_delta(#[trigger] old(deltas)@, id) + ids@.to_multiset().count(id)
                    <= ReferenceCounter::MAX) ==> r is Ok,
    {
        broadcast use vstd::seq_lib::group_to_multiset_ensures;

        let n = ids.len();
        let mut i: usize = 0;
        proof {
            assert(ids@.subrange(0, 0) =~= Seq::<EntityId>::empty());
            assert(ids@.subrange(0, 0).to_multiset() =~= Multiset::<EntityId>::empty());
        }
        while i < n
            invariant
                old(deltas).wf(),
                deltas.wf(),
                n == ids.len(),
                i <= n,
                forall|id: EntityId|
                    spec_rc_delta(#[trigger] deltas@, id) == spec_rc_delta(old(deltas)@, id)
                        + ids@.subrange(0, i as int).to_multiset().count(id),
            decreases n - i,
        {
            broadcast use vstd::seq_lib::group_to_multiset_ensures;

            let id = ids[i];
            let ghost prefix = ids@.subrange(0, i as int);
            let current: ReferenceCounter = match deltas.get(id) {
                Some(c) => *c,
                None => 0,
            };
            proof {
                assert(current == spec_rc_delta(deltas@, id));
            }
            if current == ReferenceCounter::MAX {
                proof {
                    let suffix = ids@.subrange(i as int, n as int);
                    assert(ids@ =~= prefix + suffix);
                    vstd::seq_lib::lemma_multiset_commutative(prefix, suffix);
                    assert(suffix[0] == id);
                    assert(suffix.to_multiset().contains(id));
                    assert(suffix.to_multiset().count(id) >= 1);
                    assert(spec_rc_delta(old(deltas)@, id) + ids@.to_multiset().count(id)
                        > ReferenceCounter::MAX);
                }
                return Err(Error::InternalInvariantBroken);
            }
            let ghost d0 = deltas@;
            deltas.insert(id, current + 1);
            proof {
                let longer = ids@.subrange(0, i + 1 as int);
                assert(longer =~= prefix.push(ids@[i as int]));
                assert(longer.to_multiset() =~= prefix.to_multiset().insert(ids@[i as int]));
                assert forall|x: EntityId|
                    spec_rc_delta(#[trigger] deltas@, x) == spec_rc_delta(old(deltas)@, x)
                        + longer.to_multiset().count(x) by {
                    if x != id {
                        assert(spec_rc_delta(deltas@, x) == spec_rc_delta(d0, x));
                        assert(spec_rc_delta(d0, x) == spec_rc_delta(old(deltas)@, x)
                            + prefix.to_multiset().count(x));
                        assert(longer.to_multiset().count(x) == prefix.to_multiset().count(x));
                    } else {
                        assert(spec_rc_delta(deltas@, id) == current + 1);
                        assert(longer.to_multiset().count(id) == prefix.to_multiset().count(id)
                            + 1);
                    }
                }
            }
            i += 1;
        }
        proof {
            assert(ids@.subrange(0, n as int) =~= ids@);
        }
        Ok(())
    }

    /// Counts the occurrences of each element: the resulting map carries,
    /// for every id occurring in `ids`, how often it occurs.
    pub fn count_element_function(ids: &Vec<EntityId>) -> (r: KvMap<ReferenceCounter>)
        requires
            ids@.len() <= ReferenceCounter::MAX,
        ensures
            r.wf(),
            forall|id: EntityId| r@.dom().contains(id) == ids@.contains(id),
            forall|id: EntityId|
                #[trigger] r@.dom().contains(id) ==> r@[id] == ids@.to_multiset().count(id),
    {
        broadcast use vstd::seq_lib::group_to_multiset_ensures;

        let n = ids.len();
        let mut counts: KvMap<ReferenceCounter> = KvMap::new();
        let mut i: usize = 0;
        proof {
            assert(ids@.subrange(0, 0) =~= Seq::<EntityId>::empty());
            assert(ids@.subrange(0, 0).to_multiset() =~= Multiset::<EntityId>::empty());
        }
        while i < n
            invariant
                ids@.len() <= ReferenceCounter::MAX,
                n == ids.len(),
                i <= n,
                counts.wf(),
                forall|id: EntityId| counts@.dom().contains(id) == ids@.subrange(
                    0,
                    i as int,
                ).contains(id),
                forall|id: EntityId|
                    #[trigger] counts@.dom().contains(id) ==> counts@[id] == ids@.subrange(
                        0,
                        i as int,
                    ).to_multiset().count(id),
            decreases n - i,
        {
            broadcast use vstd::seq_lib::group_to_multiset_ensures;

            let id = ids[i];
            let ghost prefix = ids@.subrange(0, i as int);
            let current: ReferenceCounter = match counts.get(id) {
                Some(c) => *c,
                None => 0,
            };
            proof {
                assert(prefix.to_multiset().count(id) <= prefix.to_multiset().len());
                assert(prefix.to_multiset().len() == prefix.len());
                if !counts@.dom().contains(id) {
                    assert(!prefix.contains(id));
                    assert(prefix.to_multiset().count(id) == 0) by {
                        if prefix.to_multiset().count(id) > 0 {
                            assert(prefix.to_multiset().contains(id));
                            assert(prefix.contains(id));
                        }
                    }
                }
            }
            counts.insert(id, current + 1);
            proof {
                let longer = ids@.subrange(0, i + 1 as int);
                assert(longer =~= prefix.push(ids@[i as int]));
                assert(longer.to_multiset() =~= prefix.to_multiset().insert(ids@[i as int]));
                assert forall|x: EntityId| counts@.dom().contains(x) == longer.contains(
                    x,
                ) by {
                    if x == id {
                        assert(longer[i as int] == id);
                        assert(longer.contains(id));
                    } else {
                        if longer.contains(x) {
                            let j = choose|j: int| 0 <= j < longer.len() && longer[j] == x;
                            assert(prefix[j] == x);
                            assert(prefix.contains(x));
                        } else {
                            if prefix.contains(x) {
                                let j = choose|j: int| 0 <= j < prefix.len() && prefix[j] == x;
                                assert(longer[j] == x);
                            }
                        }
                    }
                }
            }
            i += 1;
        }
        proof {
            assert(ids@.subrange(0, n as int) =~= ids@);
        }
        counts
    }
}

} // verus!

//! Ownership transfer: walking the same-owner reference subgraph from a
//! root entity and rewriting the controller of everything reached.

use vstd::prelude::*;
use vstd::set_lib::lemma_len_subset;
use crate::collections::IdSet;
use crate::entity::Entity;
use crate::errors::Error;
use crate::events::Event;
use crate::permissions::EntityController;
use crate::permissions::EntityPermissions;
use crate::permissions::Origin;
use crate::store::Store;
use crate::EntityId;
use crate::PropertyId;

verus! {

impl Store {
    /// The entities a stored entity references through properties whose
    /// declaration carries the `same_controller` flag.
    pub open spec fn spec_same_owner_targets(&self, id: EntityId) -> Set<EntityId> {
        let e = self.entity_by_id@[id];
        let c = self.class_by_id@[e.class_id];
        Set::new(
            |t: EntityId|
                exists|pid: PropertyId|
                    {
                        &&& #[trigger] e.values@.dom().contains(pid)
                        &&& (pid as int) < c.properties@.len()
                        &&& c.properties@[pid as int].prop_type.spec_same_controller()
                        &&& e.values@[pid].spec_refs().contains(t)
                    },
        )
    }

    /// A set of existing entities, containing the root, closed under
    /// existing same-owner reference targets.
    pub open spec fn spec_same_owner_closed(&self, v: Set<EntityId>, root: EntityId) -> bool {
        &&& v.contains(root)
        &&& forall|id: EntityId| #[trigger] v.contains(id) ==> self.entity_by_id@.dom().contains(id)
        &&& forall|id: EntityId, t: EntityId|
            #[trigger] v.contains(id) && self.spec_same_owner_targets(id).contains(t)
                && self.entity_by_id@.dom().contains(t) ==> #[trigger] v.contains(t)
    }

    /// Collects the root and every entity reachable from it over
    /// same-owner reference edges.
    pub fn retrieve_all_entities_to_perform_ownership_transfer(&self, entity_id: EntityId) -> (r:
        IdSet)
        requires
            self.wf(),
            self.entity_by_id@.dom().contains(entity_id),
        ensures
            r.wf(),
            self.spec_same_owner_closed(r@, entity_id),
            forall|w: Set<EntityId>|
                #[trigger] self.spec_same_owner_closed(w, entity_id) ==> r@ <= w,
    {
        let mut visited = IdSet::new();
        visited.insert(entity_id);
        let mut queue: Vec<EntityId> = Vec::new();
        queue.push(entity_id);
        proof {
            assert(queue@ =~= seq![entity_id]);
            assert(queue@[0] == entity_id);
            assert(queue@.contains(entity_id));
            assert forall|w: Set<EntityId>| #[trigger] self.spec_same_owner_closed(
                w,
                entity_id,
            ) implies visited@ <= w by {
                assert forall|x: EntityId| visited@.contains(x) implies w.contains(x) by {
                    assert(x == entity_id);
                }
            }
        }
        while queue.len() > 0
            invariant
                self.wf(),
                self.entity_by_id@.dom().contains(entity_id),
                visited.wf(),
                visited@.contains(entity_id),
                forall|id: EntityId| #[trigger] visited@.contains(id)
                    ==> self.entity_by_id@.dom().contains(id),
                queue@.no_duplicates(),
                forall|i: int| 0 <= i < queue@.len() ==> visited@.contains(#[trigger] queue@[i]),
                forall|id: EntityId, t: EntityId|
                    #[trigger] visited@.contains(id) && !queue@.contains(id)
                        && self.spec_same_owner_targets(id).contains(t)
                        && self.entity_by_id@.dom().contains(t) ==> #[trigger] visited@.contains(
                        t,
                    ),
                forall|w: Set<EntityId>|
                    #[trigger] self.spec_same_owner_closed(w, entity_id) ==> visited@ <= w,
            decreases self.entity_by_id@.dom().len() - visited@.len(), queue@.len(),
        {
            let ghost visited0 = visited@;
            let ghost queue0 = queue@;
            let id = match queue.pop() {
                Some(id) => id,
                None => {
                    proof {
                        assert(false);
                    }
                    return visited;
                },
            };
            proof {
                assert(queue@ =~= queue0.drop_last());
                assert(visited@.contains(id));
                assert forall|x: EntityId| queue0.contains(x) && x != id implies queue@.contains(
                    x,
                ) by {
                    let jx = choose|jx: int| 0 <= jx < queue0.len() && queue0[jx] == x;
                    assert(jx < queue0.len() - 1);
                    assert(queue@[jx] == x);
                }
            }
            let entity = match self.entity_by_id.get(id) {
                Some(entity) => entity,
                None => {
                    proof {
                        assert(false);
                    }
                    return visited;
                },
            };
            let class = match self.class_by_id.get(entity.class_id) {
                Some(class) => class,
                None => {
                    proof {
                        assert(false);
                    }
                    return visited;
                },
            };
            proof {
                vstd::std_specs::vec::axiom_spec_len(&class.properties);
            }
            let nvals = entity.values.len();
            let mut vi: usize = 0;
            let mut grew = false;
            while vi < nvals
                invariant
                    self.wf(),
                    self.entity_by_id@.dom().contains(entity_id),
                    self.entity_by_id@.dom().contains(id),
                    *entity == self.entity_by_id@[id],
                    *class == self.class_by_id@[entity.class_id],
                    entity.wf(),
                    nvals == entity.values.entry_seq().len(),
                    vi <= nvals,
                    visited.wf(),
                    visited@.contains(entity_id),
                    visited@.contains(id),
                    visited0 <= visited@,
                    forall|id2: EntityId| #[trigger] visited@.contains(id2)
                        ==> self.entity_by_id@.dom().contains(id2),
                    queue@.no_duplicates(),
                    forall|i: int| 0 <= i < queue@.len() ==> visited@.contains(
                        #[trigger] queue@[i],
                    ),
                    !grew ==> visited@ == visited0 && queue@ == queue0.drop_last(),
                    grew ==> visited0.len() < visited@.len(),
                    forall|id2: EntityId, t: EntityId|
                        #[trigger] visited@.contains(id2) && !queue@.contains(id2) && id2 != id
                            && self.spec_same_owner_targets(id2).contains(t)
                            && self.entity_by_id@.dom().contains(t)
                            ==> #[trigger] visited@.contains(t),
                    forall|w: Set<EntityId>|
                        #[trigger] self.spec_same_owner_closed(w, entity_id) ==> visited@ <= w,
                    forall|j: int|
                        0 <= j < vi ==> {
                            let pid = (#[trigger] entity.values.entry_seq()[j]).0;
                            let value = entity.values.entry_seq()[j].1;
                            ((pid as int) < class.properties@.len()
                                && class.properties@[pid as int].prop_type.spec_same_controller())
                                ==> forall|t: EntityId|
                                value.spec_refs().contains(t)
                                    && self.entity_by_id@.dom().contains(t)
                                    ==> #[trigger] visited@.contains(t)
                        },
                decreases nvals - vi,
            {
                let (pid, value) = entity.values.entry_at(vi);
                let in_class = pid < class.properties.len() as u64;
                let same = in_class && class.properties[pid as usize].prop_type
                    .same_controller_status();
                if same {
                    if let Some(ids) = value.get_involved_entities() {
                        let nids = ids.len();
                        let mut ti: usize = 0;
                        while ti < nids
                            invariant
                                self.wf(),
                                self.entity_by_id@.dom().contains(entity_id),
                                self.entity_by_id@.dom().contains(id),
                                nids == ids@.len(),
                                ti <= nids,
                                ids@ == value.spec_refs(),
                                *entity == self.entity_by_id@[id],
                                *class == self.class_by_id@[entity.class_id],
                                entity.values@.dom().contains(pid),
                                entity.values@[pid] == *value,
                                (pid as int) < class.properties@.len(),
                                class.properties@[pid as int].prop_type.spec_same_controller(),
                                visited.wf(),
                                visited@.contains(entity_id),
                                visited@.contains(id),
                                visited0 <= visited@,
                                forall|id2: EntityId| #[trigger] visited@.contains(id2)
                                    ==> self.entity_by_id@.dom().contains(id2),
                                queue@.no_duplicates(),
                                forall|i: int| 0 <= i < queue@.len() ==> visited@.contains(
                                    #[trigger] queue@[i],
                                ),
                                !grew ==> visited@ == visited0 && queue@ == queue0.drop_last(),
                                grew ==> visited0.len() < visited@.len(),
                                forall|id2: EntityId, t: EntityId|
                                    #[trigger] visited@.contains(id2) && !queue@.contains(id2)
                                        && id2 != id && self.spec_same_owner_targets(id2).contains(
                                        t,
                                    ) && self.entity_by_id@.dom().contains(t)
                                        ==> #[trigger] visited@.contains(t),
                                forall|w: Set<EntityId>|
                                    #[trigger] self.spec_same_owner_closed(w, entity_id)
                                        ==> visited@ <= w,
                                forall|j: int|
                                    0 <= j < vi ==> {
                                        let pid2 = (#[trigger] entity.values.entry_seq()[j]).0;
                                        let value2 = entity.values.entry_seq()[j].1;
                                        ((pid2 as int) < class.properties@.len()
                                            && class.properties@[
                                            pid2 as int
                                        ].prop_type.spec_same_controller()) ==> forall|t: EntityId|
                                            value2.spec_refs().contains(t)
                                                && self.entity_by_id@.dom().contains(t)
                                                ==> #[trigger] visited@.contains(t)
                                    },
                                forall|x: int|
                                    0 <= x < ti ==> (self.entity_by_id@.dom().contains(
                                        #[trigger] ids@[x],
                                    ) ==> visited@.contains(ids@[x])),
                            decreases nids - ti,
                        {
                            let t = ids[ti];
                            if self.entity_by_id.contains_key(t) && !visited.contains(t) {
                                proof {
                                    self.entity_by_id.lemma_entries();
                                    lemma_len_subset(visited@, self.entity_by_id@.dom());
                                    assert forall|i: int| 0 <= i < queue@.len() implies (
                                    #[trigger] queue@[i]) != t by {
                                        assert(visited@.contains(queue@[i]));
                                    }
                                    assert(!queue@.contains(t));
                                }
                                let ghost qpre = queue@;
                                let ghost vpre = visited@;
                                proof {
                                    assert(entity.values@.dom().contains(pid));
                                    assert(entity.values@[pid] == *value);
                                    assert(value.spec_refs().contains(t)) by {
                                        assert(ids@[ti as int] == t);
                                    }
                                    assert(self.spec_same_owner_targets(id).contains(t));
                                }
                                visited.insert(t);
                                queue.push(t);
                                grew = true;
                                proof {
                                    assert forall|w: Set<EntityId>|
                                        #[trigger] self.spec_same_owner_closed(w, entity_id)
                                            implies visited@ <= w by {
                                        assert(vpre <= w);
                                        assert(vpre.contains(id));
                                        assert(w.contains(id));
                                        assert(w.contains(t));
                                        assert forall|x: EntityId| visited@.contains(x)
                                            implies w.contains(x) by {
                                            if x != t {
                                                assert(vpre.contains(x));
                                            }
                                        }
                                    }
                                    assert(queue@ =~= qpre.push(t));
                                    assert(queue@.last() == t);
                                    assert(queue@.contains(t));
                                    assert forall|x: EntityId| qpre.contains(x) implies queue@.contains(
                                        x,
                                    ) by {
                                        let jx = choose|jx: int|
                                            0 <= jx < qpre.len() && qpre[jx] == x;
                                        assert(queue@[jx] == x);
                                    }
                                    assert forall|x: EntityId| queue@.contains(x) && x != t
                                        implies qpre.contains(x) by {
                                        let jx = choose|jx: int|
                                            0 <= jx < queue@.len() && queue@[jx] == x;
                                        assert(jx < queue@.len() - 1);
                                        assert(qpre[jx] == x);
                                    }
                                    lemma_len_subset(vpre, visited@);
                                }
                            }
                            ti += 1;
                        }
                    }
                }
                vi += 1;
            }
            proof {
                self.entity_by_id.lemma_entries();
                lemma_len_subset(visited@, self.entity_by_id@.dom());
                assert(visited@.len() <= self.entity_by_id@.dom().len());
                assert forall|id2: EntityId, t: EntityId|
                    #[trigger] visited@.contains(id2) && !queue@.contains(id2)
                        && self.spec_same_owner_targets(id2).contains(t)
                        && self.entity_by_id@.dom().contains(t) implies #[trigger] visited@.contains(
                    t,
                ) by {
                    if id2 == id {
                        let pid = choose|pid: PropertyId|
                            {
                                &&& #[trigger] entity.values@.dom().contains(pid)
                                &&& (pid as int) < class.properties@.len()
                                &&& class.properties@[pid as int].prop_type.spec_same_controller()
                                &&& entity.values@[pid].spec_refs().contains(t)
                            };
                        entity.values.lemma_entries();
                        let ks = crate::collections::key_seq(entity.values.entry_seq());
                        assert(ks.to_set().contains(pid));
                        assert(ks.contains(pid));
                        let j = choose|j: int| 0 <= j < ks.len() && ks[j] == pid;
                        assert(entity.values.entry_seq()[j].0 == pid);
                        assert(entity.values.entry_seq()[j].1 == entity.values@[pid]);
                    }
                }
            }
        }
        proof {
            assert forall|id2: EntityId, t: EntityId|
                #[trigger] visited@.contains(id2) && self.spec_same_owner_targets(id2).contains(t)
                    && self.entity_by_id@.dom().contains(t) implies #[trigger] visited@.contains(
                t,
            ) by {
                assert(!queue@.contains(id2));
            }
        }
        visited
    }

    /// The exact pre-mutation outcome of `transfer_entity_ownership`.
    pub open spec fn spec_transfer_entity_ownership(
        &self,
        origin: Origin,
        entity_id: EntityId,
    ) -> Result<(), Error> {
        if !self.spec_is_lead_origin(origin) {
            Err(Error::AccessDenied)
        } else if !self.entity_by_id@.dom().contains(entity_id) {
            Err(Error::EntityNotFound)
        } else if self.entity_by_id@[
            entity_id
        ].inbound_same_owner_references_from_other_entities_count != 0 {
            Err(Error::EntityRcNonZero)
        } else {
            Ok(())
        }
    }

    /// Rewrites the controller of the root entity and of every entity
    /// reachable from it over same-owner reference edges.
    pub fn transfer_entity_ownership(
        &mut self,
        origin: Origin,
        entity_id: EntityId,
        new_controller: EntityController,
    ) -> (r: Result<(), Error>)
        requires
            old(self).wf(),
        ensures
            final(self).wf(),
            r == old(self).spec_transfer_entity_ownership(origin, entity_id),
            r is Err ==> *final(self) == *old(self),
            r is Ok ==> exists|v: Set<EntityId>|
                {
                    &&& #[trigger] old(self).spec_same_owner_closed(v, entity_id)
                    &&& forall|w: Set<EntityId>|
                        #[trigger] old(self).spec_same_owner_closed(w, entity_id) ==> v <= w
                    &&& final(self).entity_by_id@.dom() == old(self).entity_by_id@.dom()
                    &&& forall|id: EntityId|
                        #[trigger] old(self).entity_by_id@.dom().contains(id) ==> final(self).entity_by_id@[id] == (if v.contains(id) {
                            Entity {
                                entity_permission: EntityPermissions {
                                    controller: new_controller,
                                    ..old(self).entity_by_id@[id].entity_permission
                                },
                                ..old(self).entity_by_id@[id]
                            }
                        } else {
                            old(self).entity_by_id@[id]
                        })
                },
            r is Ok ==> {
                &&& final(self).events@ == old(self).events@.push(
                    Event::EntityOwnershipTransfered(entity_id, new_controller),
                )
                &&& final(self).class_by_id == old(self).class_by_id
                &&& final(self).curator_group_by_id == old(self).curator_group_by_id
                &&& final(self).entity_creation_vouchers == old(self).entity_creation_vouchers
                &&& final(self).next_curator_group_id == old(self).next_curator_group_id
                &&& final(self).next_class_id == old(self).next_class_id
                &&& final(self).next_entity_id == old(self).next_entity_id
                &&& final(self).config == old(self).config
                &&& final(self).authority == old(self).authority
            },
    {
        if let Err(e) = self.ensure_is_lead(origin) {
            return Err(e);
        }
        {
            let entity = match self.ensure_known_entity_id(entity_id) {
                Ok(entity) => entity,
                Err(e) => {
                    return Err(e);
                },
            };
            if let Err(e) = Store::ensure_inbound_same_owner_rc_is_zero(entity) {
                return Err(e);
            }
        }
        let visited = self.retrieve_all_entities_to_perform_ownership_transfer(entity_id);
        let n = visited.len();
        let mut i: usize = 0;
        while i < n
            invariant
                old(self).wf(),
                self.wf(),
                visited.wf(),
                old(self).spec_same_owner_closed(visited@, entity_id),
                n == visited.seq().len(),
                i <= n,
                self.entity_by_id@.dom() == old(self).entity_by_id@.dom(),
                self.class_by_id == old(self).class_by_id,
                self.curator_group_by_id == old(self).curator_group_by_id,
                self.entity_creation_vouchers == old(self).entity_creation_vouchers,
                self.events == old(self).events,
                self.next_curator_group_id == old(self).next_curator_group_id,
                self.next_class_id == old(self).next_class_id,
                self.next_entity_id == old(self).next_entity_id,
                self.config == old(self).config,
                self.authority == old(self).authority,
                forall|j: int|
                    0 <= j < i ==> self.entity_by_id@[#[trigger] visited.seq()[j]] == (Entity {
                        entity_permission: EntityPermissions {
                            controller: new_controller,
                            ..old(self).entity_by_id@[visited.seq()[j]].entity_permission
                        },
                        ..old(self).entity_by_id@[visited.seq()[j]]
                    }),
                forall|id: EntityId|
                    #[trigger] old(self).entity_by_id@.dom().contains(id) && (forall|j: int|
                        0 <= j < i ==> (#[trigger] visited.seq()[j]) != id)
                        ==> self.entity_by_id@[id] == old(self).entity_by_id@[id],
            decreases n - i,
        {
            let ghost spre = *self;
            let id = visited.elem_at(i);
            proof {
                visited.lemma_view_is_seq();
                assert(visited@.contains(id));
            }
            let mut entity = match self.entity_by_id.remove_key(id) {
                Some(entity) => entity,
                None => {
                    proof {
                        assert(false);
                    }
                    return Err(Error::InternalInvariantBroken);
                },
            };
            entity.entity_permission.set_controller(new_controller);
            self.entity_by_id.insert(id, entity);
            proof {
                assert(self.entity_by_id@.dom() =~= old(self).entity_by_id@.dom());
                assert(self.entity_by_id@.dom() =~= spre.entity_by_id@.dom());
                Store::lemma_counts_unchanged(spre, *self);
                assert forall|j: int| 0 <= j < i implies (#[trigger] visited.seq()[j]) != id by {
                    assert(visited.seq()[i as int] == id);
                }
            }
            i += 1;
        }
        self.events.push(Event::EntityOwnershipTransfered(entity_id, new_controller));
        proof {
            visited.lemma_view_is_seq();
            let v = visited@;
            assert(old(self).spec_same_owner_closed(v, entity_id));
            assert forall|id: EntityId| #[trigger] old(self).entity_by_id@.dom().contains(
                id,
            ) implies self.entity_by_id@[id] == (if v.contains(id) {
                Entity {
                    entity_permission: EntityPermissions {
                        controller: new_controller,
                        ..old(self).entity_by_id@[id].entity_permission
                    },
                    ..old(self).entity_by_id@[id]
                }
            } else {
                old(self).entity_by_id@[id]
            }) by {
                if v.contains(id) {
                    let j = choose|j: int|
                        0 <= j < visited.seq().len() && visited.seq()[j] == id;
                    assert(self.entity_by_id@[visited.seq()[j]] == (Entity {
                        entity_permission: EntityPermissions {
                            controller: new_controller,
                            ..old(self).entity_by_id@[visited.seq()[j]].entity_permission
                        },
                        ..old(self).entity_by_id@[visited.seq()[j]]
                    }));
                } else {
                    assert forall|j: int| 0 <= j < visited.seq().len() implies (
                    #[trigger] visited.seq()[j]) != id by {
                        if visited.seq()[j] == id {
                            assert(visited@.contains(id));
                        }
                    }
                }
            }
        }
        Ok(())
    }
}

} // verus!

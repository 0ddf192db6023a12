//! The nonce-guarded vector operations on entity property values:
//! clearing a vector, removing one element, and inserting one element.

use vstd::prelude::*;
use crate::errors::Error;
use crate::events::Event;
use crate::collections::KvMap;
use crate::permissions::Actor;
use crate::permissions::EntityController;
use crate::schema::spec_value_fits_inner;
use crate::schema::value_fits_inner;
use crate::schema::PropertyType;
use crate::schema::PropertyValue;
use crate::schema::SinglePropertyValue;
use crate::schema::Type;
use crate::schema::Value;
use crate::schema::VecPropertyValue;
use crate::store::Store;
use crate::value_ops::rc_only_change;
use crate::value_ops::spec_rc_delta;
use crate::EntityId;
use crate::Nonce;
use crate::PropertyId;
use crate::ReferenceCounter;
use crate::VecMaxLength;

verus! {

impl Store {
    /// The exact pre-mutation outcome of `clear_entity_property_vector`.
    pub open spec fn spec_clear_entity_property_vector(
        &self,
        origin: crate::permissions::Origin,
        actor: Actor,
        entity_id: EntityId,
        prop_id: PropertyId,
    ) -> Result<(), Error> {
        match self.spec_class_entity_access(origin, entity_id, actor) {
            Err(e) => Err(e),
            Ok(level) => {
                let entity = self.entity_by_id@[entity_id];
                let class = self.class_by_id@[entity.class_id];
                match Store::spec_property_value_vec(&entity, prop_id) {
                    Err(e) => Err(e),
                    Ok(vpv) => match Store::spec_class_property_type_unlocked_for(
                        &class,
                        prop_id,
                        level,
                    ) {
                        Err(e) => Err(e),
                        Ok(_) => {
                            if vpv.nonce == Nonce::MAX || vpv.vec_value.elems().len()
                                > ReferenceCounter::MAX {
                                Err(Error::InternalInvariantBroken)
                            } else {
                                Ok(())
                            }
                        },
                    },
                }
            },
        }
    }


    /// Whether the class property under `prop_id` of the entity's class
    /// carries the same-controller flag, as resolved at `level`.
    pub open spec fn spec_slot_same_controller(
        &self,
        entity_id: EntityId,
        prop_id: PropertyId,
        level: crate::permissions::EntityAccessLevel,
    ) -> bool {
        match Store::spec_class_property_type_unlocked_for(
            &self.class_by_id@[self.entity_by_id@[entity_id].class_id],
            prop_id,
            level,
        ) {
            Ok(prop_type) => prop_type.spec_same_controller(),
            Err(_) => false,
        }
    }

    /// Empties the vector value under `prop_id`, bumps its nonce, and lets
    /// go of every reference the vector held.
    pub fn clear_entity_property_vector(
        &mut self,
        origin: crate::permissions::Origin,
        actor: Actor,
        entity_id: EntityId,
        prop_id: PropertyId,
    ) -> (r: Result<(), Error>)
        requires
            old(self).wf(),
        ensures
            final(self).wf(),
            r is Err ==> final(self).events == old(self).events,
            old(self).spec_clear_entity_property_vector(origin, actor, entity_id, prop_id) is Err
                ==> r == old(self).spec_clear_entity_property_vector(
                origin,
                actor,
                entity_id,
                prop_id,
            ) && *final(self) == *old(self),
            old(self).spec_clear_entity_property_vector(origin, actor, entity_id, prop_id) is Ok
                ==> (r is Ok || r == Result::<(), Error>::Err(Error::InternalInvariantBroken)),
            ({
                let level = old(self).spec_granted_level(origin, entity_id, actor);
                let same = old(self).spec_slot_same_controller(entity_id, prop_id, level);
                let refs = old(self).entity_by_id@[entity_id].values@[prop_id].spec_refs();
                &&& old(self).spec_clear_entity_property_vector(origin, actor, entity_id, prop_id)
                    is Ok
                &&& forall|id: EntityId|
                    #[trigger] old(self).entity_by_id@.dom().contains(id)
                        ==> refs.to_multiset().count(id) <= (if same {
                        old(self).entity_by_id@[
                            id
                        ].inbound_same_owner_references_from_other_entities_count as int
                    } else {
                        old(self).entity_by_id@[id].reference_count - old(self).entity_by_id@[
                            id
                        ].inbound_same_owner_references_from_other_entities_count
                    })
            }) ==> r is Ok,
            r is Ok ==> {
                let level = old(self).spec_granted_level(origin, entity_id, actor);
                let same = old(self).spec_slot_same_controller(entity_id, prop_id, level);
                let refs = old(self).entity_by_id@[entity_id].values@[prop_id].spec_refs();
                forall|id: EntityId|
                    #[trigger] old(self).entity_by_id@.dom().contains(id) ==> {
                        &&& final(self).entity_by_id@[id].reference_count == old(
                            self,
                        ).entity_by_id@[id].reference_count - refs.to_multiset().count(id)
                        &&& final(self).entity_by_id@[
                            id
                        ].inbound_same_owner_references_from_other_entities_count == old(
                            self,
                        ).entity_by_id@[
                            id
                        ].inbound_same_owner_references_from_other_entities_count - (if same {
                            refs.to_multiset().count(id) as int
                        } else {
                            0
                        })
                    }
            },
            r is Ok ==> {
                let e0 = old(self).entity_by_id@[entity_id];
                let n0 = (match e0.values@[prop_id] {
                    PropertyValue::Vector(v) => v.nonce,
                    PropertyValue::Single(_) => 0,
                });
                &&& final(self).entity_by_id@.dom() == old(self).entity_by_id@.dom()
                &&& final(self).entity_by_id@[entity_id].values@.dom() == e0.values@.dom()
                &&& (match final(self).entity_by_id@[entity_id].values@[prop_id] {
                    PropertyValue::Vector(v) => v.vec_value.elems() == Seq::<Value>::empty()
                        && v.nonce == n0 + 1,
                    PropertyValue::Single(_) => false,
                })
                &&& forall|k: u64|
                    #[trigger] e0.values@.dom().contains(k) && k != prop_id ==> final(self).entity_by_id@[entity_id].values@[k] == e0.values@[k]
                &&& final(self).entity_by_id@[entity_id].entity_permission == e0.entity_permission
                &&& final(self).entity_by_id@[entity_id].class_id == e0.class_id
                &&& final(self).entity_by_id@[entity_id].supported_schemas
                    == e0.supported_schemas
                &&& forall|id: EntityId|
                    id != entity_id && old(self).entity_by_id@.dom().contains(id)
                        ==> rc_only_change(
                        old(self).entity_by_id@[id],
                        #[trigger] final(self).entity_by_id@[id],
                    )
                &&& final(self).events@ == old(self).events@.push(
                    Event::EntityPropertyValueVectorCleared(actor, entity_id, prop_id),
                )
                &&& final(self).class_by_id == old(self).class_by_id
                &&& final(self).curator_group_by_id == old(self).curator_group_by_id
                &&& final(self).entity_creation_vouchers == old(self).entity_creation_vouchers
                &&& final(self).next_curator_group_id == old(self).next_curator_group_id
                &&& final(self).next_class_id == old(self).next_class_id
                &&& final(self).next_entity_id == old(self).next_entity_id
                &&& final(self).config == old(self).config
                &&& final(self).authority == old(self).authority
            },
    {
        let access_level = match self.class_entity_and_access_level(origin, entity_id, &actor) {
            Ok(level) => level,
            Err(e) => {
                return Err(e);
            },
        };
        let ghost refs = old(self).entity_by_id@[entity_id].values@[prop_id].spec_refs();
        let (same_owner, involved) = {
            let (entity, class) = match self.get_entity_and_class(entity_id) {
                Ok(pair) => pair,
                Err(e) => {
                    return Err(e);
                },
            };
            let vpv = match Store::ensure_property_value_vec(entity, prop_id) {
                Ok(v) => v,
                Err(e) => {
                    return Err(e);
                },
            };
            let prop_type = match Store::ensure_class_property_type_unlocked_for(
                class,
                prop_id,
                access_level,
            ) {
                Ok(t) => t,
                Err(e) => {
                    return Err(e);
                },
            };
            if vpv.get_nonce() == Nonce::MAX {
                return Err(Error::InternalInvariantBroken);
            }
            if vpv.get_vec_value().len() as u64 > ReferenceCounter::MAX as u64 {
                return Err(Error::InternalInvariantBroken);
            }
            let involved = vpv.get_vec_value().get_involved_entities();
            proof {
                assert(entity.values@[prop_id] == PropertyValue::Vector(*vpv));
                match &involved {
                    Some(ids) => {
                        assert(ids@ == refs);
                    },
                    None => {
                        assert(vpv.vec_value.spec_involved_entities() is None);
                        assert(refs =~= Seq::<EntityId>::empty());
                    },
                }
            }
            (prop_type.same_controller_status(), involved)
        };
        proof {
            assert(same_owner == old(self).spec_slot_same_controller(
                entity_id,
                prop_id,
                old(self).spec_granted_level(origin, entity_id, actor),
            ));
        }
        let mut entity = match self.entity_by_id.remove_key(entity_id) {
            Some(entity) => entity,
            None => {
                return Err(Error::EntityNotFound);
            },
        };
        let mut vpv = match entity.values.remove_key(prop_id) {
            Some(PropertyValue::Vector(v)) => v,
            _ => {
                return Err(Error::InternalInvariantBroken);
            },
        };
        vpv.vec_clear();
        entity.values.insert(prop_id, PropertyValue::Vector(vpv));
        self.entity_by_id.insert(entity_id, entity);
        proof {
            assert(self.entity_by_id@.dom() =~= old(self).entity_by_id@.dom());
            assert(self.entity_by_id@[entity_id].values@.dom() =~= old(self).entity_by_id@[entity_id].values@.dom());
            Store::lemma_counts_unchanged(*old(self), *self);
        }
        let ghost smid = *self;
        proof {
            assert forall|id: EntityId| #[trigger] old(self).entity_by_id@.dom().contains(
                id,
            ) implies smid.entity_by_id@[id].reference_count == old(self).entity_by_id@[
                id
            ].reference_count && smid.entity_by_id@[
                id
            ].inbound_same_owner_references_from_other_entities_count == old(self).entity_by_id@[
                id
            ].inbound_same_owner_references_from_other_entities_count by {}
        }
        if let Some(ids) = involved {
            let counts = Store::count_element_function(&ids);
            proof {
                assert forall|x: EntityId| spec_rc_delta(#[trigger] counts@, x)
                    == refs.to_multiset().count(x) by {
                    if !counts@.dom().contains(x) {
                        vstd::seq_lib::to_multiset_contains(ids@, x);
                    }
                }
            }
            if let Err(e) = self.decrement_entity_rcs(&counts, same_owner) {
                proof {
                    if (forall|id: EntityId|
                        #[trigger] smid.entity_by_id@.dom().contains(id) ==> spec_rc_delta(
                            counts@,
                            id,
                        ) <= (if same_owner {
                            smid.entity_by_id@[
                                id
                            ].inbound_same_owner_references_from_other_entities_count as int
                        } else {
                            smid.entity_by_id@[id].reference_count - smid.entity_by_id@[
                                id
                            ].inbound_same_owner_references_from_other_entities_count
                        })) {
                        assert(false);
                    }
                }
                return Err(e);
            }
        } else {
            proof {
                assert forall|x: EntityId| refs.to_multiset().count(x) == 0 by {
                    vstd::seq_lib::to_multiset_contains(refs, x);
                }
            }
        }
        self.events.push(Event::EntityPropertyValueVectorCleared(actor, entity_id, prop_id));
        Ok(())
    }

    /// The exact pre-mutation outcome of `remove_at_entity_property_vector`.
    pub open spec fn spec_remove_at_entity_property_vector(
        &self,
        origin: crate::permissions::Origin,
        actor: Actor,
        entity_id: EntityId,
        prop_id: PropertyId,
        index: VecMaxLength,
        nonce: Nonce,
    ) -> Result<(), Error> {
        match self.spec_class_entity_access(origin, entity_id, actor) {
            Err(e) => Err(e),
            Ok(level) => {
                let entity = self.entity_by_id@[entity_id];
                let class = self.class_by_id@[entity.class_id];
                match Store::spec_property_value_vec(&entity, prop_id) {
                    Err(e) => Err(e),
                    Ok(vpv) => match Store::spec_class_property_type_unlocked_for(
                        &class,
                        prop_id,
                        level,
                    ) {
                        Err(e) => Err(e),
                        Ok(_) => {
                            if nonce != vpv.nonce {
                                Err(Error::NonceMismatch)
                            } else if index as int >= vpv.vec_value.elems().len() {
                                Err(Error::IndexOutOfBounds)
                            } else if vpv.nonce == Nonce::MAX {
                                Err(Error::InternalInvariantBroken)
                            } else {
                                Ok(())
                            }
                        },
                    },
                }
            },
        }
    }

    /// Removes the element at `index` from the vector value under
    /// `prop_id`, bumps its nonce, and lets go of the removed reference.
    pub fn remove_at_entity_property_vector(
        &mut self,
        origin: crate::permissions::Origin,
        actor: Actor,
        entity_id: EntityId,
        prop_id: PropertyId,
        index: VecMaxLength,
        nonce: Nonce,
    ) -> (r: Result<(), Error>)
        requires
            old(self).wf(),
        ensures
            final(self).wf(),
            r is Err ==> final(self).events == old(self).events,
            old(self).spec_remove_at_entity_property_vector(
                origin,
                actor,
                entity_id,
                prop_id,
                index,
                nonce,
            ) is Err ==> r == old(self).spec_remove_at_entity_property_vector(
                origin,
                actor,
                entity_id,
                prop_id,
                index,
                nonce,
            ) && *final(self) == *old(self),
            old(self).spec_remove_at_entity_property_vector(
                origin,
                actor,
                entity_id,
                prop_id,
                index,
                nonce,
            ) is Ok ==> (r is Ok || r == Result::<(), Error>::Err(Error::InternalInvariantBroken)),
            ({
                let level = old(self).spec_granted_level(origin, entity_id, actor);
                let same = old(self).spec_slot_same_controller(entity_id, prop_id, level);
                let target = (match old(self).entity_by_id@[entity_id].values@[prop_id] {
                    PropertyValue::Vector(v0) => match v0.vec_value.spec_involved_entities() {
                        Some(ids) => Some(ids[index as int]),
                        None => None::<EntityId>,
                    },
                    PropertyValue::Single(_) => None::<EntityId>,
                });
                &&& old(self).spec_remove_at_entity_property_vector(
                    origin,
                    actor,
                    entity_id,
                    prop_id,
                    index,
                    nonce,
                ) is Ok
                &&& (match target {
                    Some(t) => old(self).entity_by_id@.dom().contains(t) ==> 1 <= (if same {
                        old(self).entity_by_id@[
                            t
                        ].inbound_same_owner_references_from_other_entities_count as int
                    } else {
                        old(self).entity_by_id@[t].reference_count - old(self).entity_by_id@[
                            t
                        ].inbound_same_owner_references_from_other_entities_count
                    }),
                    None => true,
                })
            }) ==> r is Ok,
            r is Ok ==> {
                let level = old(self).spec_granted_level(origin, entity_id, actor);
                let same = old(self).spec_slot_same_controller(entity_id, prop_id, level);
                let target = (match old(self).entity_by_id@[entity_id].values@[prop_id] {
                    PropertyValue::Vector(v0) => match v0.vec_value.spec_involved_entities() {
                        Some(ids) => Some(ids[index as int]),
                        None => None::<EntityId>,
                    },
                    PropertyValue::Single(_) => None::<EntityId>,
                });
                forall|id: EntityId|
                    #[trigger] old(self).entity_by_id@.dom().contains(id) ==> {
                        &&& final(self).entity_by_id@[id].reference_count == old(
                            self,
                        ).entity_by_id@[id].reference_count - (if target == Some(id) {
                            1int
                        } else {
                            0
                        })
                        &&& final(self).entity_by_id@[
                            id
                        ].inbound_same_owner_references_from_other_entities_count == old(
                            self,
                        ).entity_by_id@[
                            id
                        ].inbound_same_owner_references_from_other_entities_count - (if same
                            && target == Some(id) {
                            1int
                        } else {
                            0
                        })
                    }
            },
            r is Ok ==> {
                let e0 = old(self).entity_by_id@[entity_id];
                &&& final(self).entity_by_id@.dom() == old(self).entity_by_id@.dom()
                &&& final(self).entity_by_id@[entity_id].values@.dom() == e0.values@.dom()
                &&& (match (e0.values@[prop_id], final(self).entity_by_id@[entity_id].values@[prop_id]) {
                    (PropertyValue::Vector(v0), PropertyValue::Vector(v)) => v.vec_value.elems()
                        == v0.vec_value.elems().remove(index as int) && v.nonce == v0.nonce + 1,
                    _ => false,
                })
                &&& forall|k: u64|
                    #[trigger] e0.values@.dom().contains(k) && k != prop_id ==> final(self).entity_by_id@[entity_id].values@[k] == e0.values@[k]
                &&& final(self).entity_by_id@[entity_id].entity_permission == e0.entity_permission
                &&& final(self).entity_by_id@[entity_id].class_id == e0.class_id
                &&& final(self).entity_by_id@[entity_id].supported_schemas
                    == e0.supported_schemas
                &&& forall|id: EntityId|
                    id != entity_id && old(self).entity_by_id@.dom().contains(id)
                        ==> rc_only_change(
                        old(self).entity_by_id@[id],
                        #[trigger] final(self).entity_by_id@[id],
                    )
                &&& final(self).events@ == old(self).events@.push(
                    Event::RemovedAtEntityPropertyValueVectorIndex(
                        actor,
                        entity_id,
                        prop_id,
                        index,
                        nonce,
                    ),
                )
                &&& final(self).class_by_id == old(self).class_by_id
                &&& final(self).curator_group_by_id == old(self).curator_group_by_id
                &&& final(self).entity_creation_vouchers == old(self).entity_creation_vouchers
                &&& final(self).next_curator_group_id == old(self).next_curator_group_id
                &&& final(self).next_class_id == old(self).next_class_id
                &&& final(self).next_entity_id == old(self).next_entity_id
                &&& final(self).config == old(self).config
                &&& final(self).authority == old(self).authority
            },
    {
        let access_level = match self.class_entity_and_access_level(origin, entity_id, &actor) {
            Ok(level) => level,
            Err(e) => {
                return Err(e);
            },
        };
        let (same_owner, involved) = {
            let (entity, class) = match self.get_entity_and_class(entity_id) {
                Ok(pair) => pair,
                Err(e) => {
                    return Err(e);
                },
            };
            let vpv = match Store::ensure_property_value_vec(entity, prop_id) {
                Ok(v) => v,
                Err(e) => {
                    return Err(e);
                },
            };
            let prop_type = match Store::ensure_class_property_type_unlocked_for(
                class,
                prop_id,
                access_level,
            ) {
                Ok(t) => t,
                Err(e) => {
                    return Err(e);
                },
            };
            if let Err(e) = vpv.ensure_nonce_equality(nonce) {
                return Err(e);
            }
            if let Err(e) = vpv.ensure_index_in_property_vector_is_valid(index) {
                return Err(e);
            }
            if vpv.get_nonce() == Nonce::MAX {
                return Err(Error::InternalInvariantBroken);
            }
            let involved = match vpv.get_vec_value().get_involved_entities() {
                Some(ids) => Some(ids[index as usize]),
                None => None,
            };
            (prop_type.same_controller_status(), involved)
        };
        proof {
            assert(same_owner == old(self).spec_slot_same_controller(
                entity_id,
                prop_id,
                old(self).spec_granted_level(origin, entity_id, actor),
            ));
        }
        let mut entity = match self.entity_by_id.remove_key(entity_id) {
            Some(entity) => entity,
            None => {
                return Err(Error::EntityNotFound);
            },
        };
        let mut vpv = match entity.values.remove_key(prop_id) {
            Some(PropertyValue::Vector(v)) => v,
            _ => {
                return Err(Error::InternalInvariantBroken);
            },
        };
        vpv.vec_remove_at(index);
        entity.values.insert(prop_id, PropertyValue::Vector(vpv));
        self.entity_by_id.insert(entity_id, entity);
        proof {
            assert(self.entity_by_id@.dom() =~= old(self).entity_by_id@.dom());
            assert(self.entity_by_id@[entity_id].values@.dom() =~= old(self).entity_by_id@[entity_id].values@.dom());
            Store::lemma_counts_unchanged(*old(self), *self);
        }
        let ghost smid = *self;
        proof {
            assert forall|id: EntityId| #[trigger] old(self).entity_by_id@.dom().contains(
                id,
            ) implies smid.entity_by_id@[id].reference_count == old(self).entity_by_id@[
                id
            ].reference_count && smid.entity_by_id@[
                id
            ].inbound_same_owner_references_from_other_entities_count == old(self).entity_by_id@[
                id
            ].inbound_same_owner_references_from_other_entities_count by {}
        }
        if let Some(target) = involved {
            let mut delta: KvMap<ReferenceCounter> = KvMap::new();
            delta.insert(target, 1);
            proof {
                assert(delta@ =~= Map::<u64, ReferenceCounter>::empty().insert(target, 1));
                assert forall|x: EntityId| spec_rc_delta(#[trigger] delta@, x) == (if x == target {
                    1int
                } else {
                    0
                }) by {}
            }
            if let Err(e) = self.decrement_entity_rcs(&delta, same_owner) {
                proof {
                    if (forall|id: EntityId|
                        #[trigger] smid.entity_by_id@.dom().contains(id) ==> spec_rc_delta(
                            delta@,
                            id,
                        ) <= (if same_owner {
                            smid.entity_by_id@[
                                id
                            ].inbound_same_owner_references_from_other_entities_count as int
                        } else {
                            smid.entity_by_id@[id].reference_count - smid.entity_by_id@[
                                id
                            ].inbound_same_owner_references_from_other_entities_count
                        })) {
                        assert(false);
                    }
                }
                return Err(e);
            }
        }
        self.events.push(
            Event::RemovedAtEntityPropertyValueVectorIndex(actor, entity_id, prop_id, index, nonce),
        );
        Ok(())
    }

    /// Whether `value` can be inserted at `index` of the stored vector
    /// under the declared vector type, and the error otherwise.
    pub open spec fn spec_can_insert_at(
        &self,
        prop_type: PropertyType,
        vpv: VecPropertyValue,
        index: VecMaxLength,
        value: Value,
        controller: EntityController,
    ) -> Result<(), Error> {
        match prop_type {
            PropertyType::Single(_) => Err(Error::ValueTypeMismatch),
            PropertyType::Vector(vt) => {
                if index as int > vpv.vec_value.elems().len() {
                    Err(Error::IndexOutOfBounds)
                } else if vpv.vec_value.elems().len() >= vt.max_length {
                    Err(Error::VecTooLong)
                } else if spec_value_fits_inner(vt.vec_type, value) is Err {
                    spec_value_fits_inner(vt.vec_type, value)
                } else if (match (vt.vec_type, value) {
                    (Type::Reference(_, same_controller), Value::Reference(target)) => self
                        .spec_check_reference(target, same_controller, controller) is Err,
                    _ => false,
                }) {
                    match (vt.vec_type, value) {
                        (Type::Reference(_, same_controller), Value::Reference(target)) => self
                            .spec_check_reference(target, same_controller, controller),
                        _ => Ok(()),
                    }
                } else if !vpv.vec_value.spec_accepts(value) {
                    Err(Error::ValueTypeMismatch)
                } else {
                    Ok(())
                }
            },
        }
    }

    /// The exact pre-mutation outcome of `insert_at_entity_property_vector`.
    pub open spec fn spec_insert_at_entity_property_vector(
        &self,
        origin: crate::permissions::Origin,
        actor: Actor,
        entity_id: EntityId,
        prop_id: PropertyId,
        index: VecMaxLength,
        value: Value,
        nonce: Nonce,
    ) -> Result<(), Error> {
        match self.spec_class_entity_access(origin, entity_id, actor) {
            Err(e) => Err(e),
            Ok(level) => {
                let entity = self.entity_by_id@[entity_id];
                let class = self.class_by_id@[entity.class_id];
                match Store::spec_property_value_vec(&entity, prop_id) {
                    Err(e) => Err(e),
                    Ok(vpv) => match Store::spec_class_property_type_unlocked_for(
                        &class,
                        prop_id,
                        level,
                    ) {
                        Err(e) => Err(e),
                        Ok(prop_type) => {
                            if nonce != vpv.nonce {
                                Err(Error::NonceMismatch)
                            } else {
                                match self.spec_can_insert_at(
                                    prop_type,
                                    vpv,
                                    index,
                                    value,
                                    entity.entity_permission.controller,
                                ) {
                                    Err(e) => Err(e),
                                    Ok(()) => {
                                        if vpv.nonce == Nonce::MAX {
                                            Err(Error::InternalInvariantBroken)
                                        } else {
                                            Ok(())
                                        }
                                    },
                                }
                            }
                        },
                    },
                }
            },
        }
    }

    /// Inserts `property_value` at `index` of the vector value under
    /// `prop_id`, bumps its nonce, and takes up the inserted reference.
    pub fn insert_at_entity_property_vector(
        &mut self,
        origin: crate::permissions::Origin,
        actor: Actor,
        entity_id: EntityId,
        prop_id: PropertyId,
        index: VecMaxLength,
        property_value: SinglePropertyValue,
        nonce: Nonce,
    ) -> (r: Result<(), Error>)
        requires
            old(self).wf(),
        ensures
            final(self).wf(),
            r is Err ==> final(self).events == old(self).events,
            old(self).spec_insert_at_entity_property_vector(
                origin,
                actor,
                entity_id,
                prop_id,
                index,
                property_value.value,
                nonce,
            ) is Err ==> r == old(self).spec_insert_at_entity_property_vector(
                origin,
                actor,
                entity_id,
                prop_id,
                index,
                property_value.value,
                nonce,
            ) && *final(self) == *old(self),
            old(self).spec_insert_at_entity_property_vector(
                origin,
                actor,
                entity_id,
                prop_id,
                index,
                property_value.value,
                nonce,
            ) is Ok ==> (r is Ok || r == Result::<(), Error>::Err(Error::InternalInvariantBroken)),
            ({
                let target = property_value.value.spec_involved_entity();
                &&& old(self).spec_insert_at_entity_property_vector(
                    origin,
                    actor,
                    entity_id,
                    prop_id,
                    index,
                    property_value.value,
                    nonce,
                ) is Ok
                &&& (match target {
                    Some(t) => old(self).entity_by_id@.dom().contains(t) ==> old(
                        self,
                    ).entity_by_id@[t].reference_count < ReferenceCounter::MAX,
                    None => true,
                })
            }) ==> r is Ok,
            r is Ok ==> {
                let level = old(self).spec_granted_level(origin, entity_id, actor);
                let same = old(self).spec_slot_same_controller(entity_id, prop_id, level);
                let target = property_value.value.spec_involved_entity();
                forall|id: EntityId|
                    #[trigger] old(self).entity_by_id@.dom().contains(id) ==> {
                        &&& final(self).entity_by_id@[id].reference_count == old(
                            self,
                        ).entity_by_id@[id].reference_count + (if target == Some(id) {
                            1int
                        } else {
                            0
                        })
                        &&& final(self).entity_by_id@[
                            id
                        ].inbound_same_owner_references_from_other_entities_count == old(
                            self,
                        ).entity_by_id@[
                            id
                        ].inbound_same_owner_references_from_other_entities_count + (if same
                            && target == Some(id) {
                            1int
                        } else {
                            0
                        })
                    }
            },
            r is Ok ==> {
                let e0 = old(self).entity_by_id@[entity_id];
                &&& final(self).entity_by_id@.dom() == old(self).entity_by_id@.dom()
                &&& final(self).entity_by_id@[entity_id].values@.dom() == e0.values@.dom()
                &&& (match (e0.values@[prop_id], final(self).entity_by_id@[entity_id].values@[prop_id]) {
                    (PropertyValue::Vector(v0), PropertyValue::Vector(v)) => v.vec_value.elems()
                        == v0.vec_value.elems().insert(index as int, property_value.value)
                        && v.nonce == v0.nonce + 1,
                    _ => false,
                })
                &&& forall|k: u64|
                    #[trigger] e0.values@.dom().contains(k) && k != prop_id ==> final(self).entity_by_id@[entity_id].values@[k] == e0.values@[k]
                &&& final(self).entity_by_id@[entity_id].entity_permission == e0.entity_permission
                &&& final(self).entity_by_id@[entity_id].class_id == e0.class_id
                &&& final(self).entity_by_id@[entity_id].supported_schemas
                    == e0.supported_schemas
                &&& forall|id: EntityId|
                    id != entity_id && old(self).entity_by_id@.dom().contains(id)
                        ==> rc_only_change(
                        old(self).entity_by_id@[id],
                        #[trigger] final(self).entity_by_id@[id],
                    )
                &&& final(self).events@ == old(self).events@.push(
                    Event::InsertedAtEntityPropertyValueVectorIndex(
                        actor,
                        entity_id,
                        prop_id,
                        index,
                        nonce,
                    ),
                )
                &&& final(self).class_by_id == old(self).class_by_id
                &&& final(self).curator_group_by_id == old(self).curator_group_by_id
                &&& final(self).entity_creation_vouchers == old(self).entity_creation_vouchers
                &&& final(self).next_curator_group_id == old(self).next_curator_group_id
                &&& final(self).next_class_id == old(self).next_class_id
                &&& final(self).next_entity_id == old(self).next_entity_id
                &&& final(self).config == old(self).config
                &&& final(self).authority == old(self).authority
            },
    {
        let access_level = match self.class_entity_and_access_level(origin, entity_id, &actor) {
            Ok(level) => level,
            Err(e) => {
                return Err(e);
            },
        };
        let value = property_value.get_value();
        let same_owner = {
            let (entity, class) = match self.get_entity_and_class(entity_id) {
                Ok(pair) => pair,
                Err(e) => {
                    return Err(e);
                },
            };
            let vpv = match Store::ensure_property_value_vec(entity, prop_id) {
                Ok(v) => v,
                Err(e) => {
                    return Err(e);
                },
            };
            let prop_type = match Store::ensure_class_property_type_unlocked_for(
                class,
                prop_id,
                access_level,
            ) {
                Ok(t) => t,
                Err(e) => {
                    return Err(e);
                },
            };
            if let Err(e) = vpv.ensure_nonce_equality(nonce) {
                return Err(e);
            }
            let vt = match prop_type {
                PropertyType::Vector(vt) => vt,
                PropertyType::Single(_) => {
                    return Err(Error::ValueTypeMismatch);
                },
            };
            if index as usize > vpv.get_vec_value().len() {
                return Err(Error::IndexOutOfBounds);
            }
            if vpv.get_vec_value().len() >= vt.max_length as usize {
                return Err(Error::VecTooLong);
            }
            if let Err(e) = value_fits_inner(vt.vec_type, &value) {
                return Err(e);
            }
            match (vt.vec_type, &value) {
                (Type::Reference(_, same_controller), Value::Reference(target)) => {
                    if let Err(e) = self.check_reference(
                        *target,
                        same_controller,
                        &entity.entity_permission.controller,
                    ) {
                        return Err(e);
                    }
                },
                _ => {},
            }
            if !vpv.get_vec_value().accepts(&value) {
                return Err(Error::ValueTypeMismatch);
            }
            if vpv.get_nonce() == Nonce::MAX {
                return Err(Error::InternalInvariantBroken);
            }
            prop_type.same_controller_status()
        };
        proof {
            assert(same_owner == old(self).spec_slot_same_controller(
                entity_id,
                prop_id,
                old(self).spec_granted_level(origin, entity_id, actor),
            ));
        }
        let involved = value.get_involved_entity();
        let mut entity = match self.entity_by_id.remove_key(entity_id) {
            Some(entity) => entity,
            None => {
                return Err(Error::EntityNotFound);
            },
        };
        let mut vpv = match entity.values.remove_key(prop_id) {
            Some(PropertyValue::Vector(v)) => v,
            _ => {
                return Err(Error::InternalInvariantBroken);
            },
        };
        vpv.vec_insert_at(index, value);
        entity.values.insert(prop_id, PropertyValue::Vector(vpv));
        self.entity_by_id.insert(entity_id, entity);
        proof {
            assert(self.entity_by_id@.dom() =~= old(self).entity_by_id@.dom());
            assert(self.entity_by_id@[entity_id].values@.dom() =~= old(self).entity_by_id@[entity_id].values@.dom());
            Store::lemma_counts_unchanged(*old(self), *self);
        }
        let ghost smid = *self;
        proof {
            assert forall|id: EntityId| #[trigger] old(self).entity_by_id@.dom().contains(
                id,
            ) implies smid.entity_by_id@[id].reference_count == old(self).entity_by_id@[
                id
            ].reference_count && smid.entity_by_id@[
                id
            ].inbound_same_owner_references_from_other_entities_count == old(self).entity_by_id@[
                id
            ].inbound_same_owner_references_from_other_entities_count by {}
        }
        if let Some(target) = involved {
            let mut delta: KvMap<ReferenceCounter> = KvMap::new();
            delta.insert(target, 1);
            proof {
                assert(delta@ =~= Map::<u64, ReferenceCounter>::empty().insert(target, 1));
                assert forall|x: EntityId| spec_rc_delta(#[trigger] delta@, x) == (if x == target {
                    1int
                } else {
                    0
                }) by {}
            }
            if let Err(e) = self.increment_entity_rcs(&delta, same_owner) {
                proof {
                    if (forall|id: EntityId|
                        #[trigger] smid.entity_by_id@.dom().contains(id) ==> smid.entity_by_id@[
                            id
                        ].reference_count + spec_rc_delta(delta@, id) <= ReferenceCounter::MAX) {
                        assert(false);
                    }
                }
                return Err(e);
            }
        }
        self.events.push(
            Event::InsertedAtEntityPropertyValueVectorIndex(
                actor,
                entity_id,
                prop_id,
                index,
                nonce,
            ),
        );
        Ok(())
    }
}

} // verus!

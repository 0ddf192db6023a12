//! Entity lifecycle: access-level resolution, entity permissions,
//! creation under voucher and class limits, and removal.

use vstd::prelude::*;
use crate::class::Class;
use crate::entity::Entity;
use crate::errors::Error;
use crate::events::Event;
use crate::permissions::curator_ok;
use crate::permissions::spec_curator_ok;
use crate::permissions::Actor;
use crate::permissions::EntityAccessLevel;
use crate::permissions::EntityController;
use crate::permissions::EntityCreationVoucher;
use crate::permissions::EntityPermissions;
use crate::permissions::Origin;
use crate::schema::PropertyValue;
use crate::store::Store;
use crate::vouchers::VoucherKey;
use crate::AccountId;
use crate::ClassId;
use crate::EntityId;
use crate::SchemaId;

verus! {

impl Store {
    /// The access level a signed account acting as `actor` holds on the
    /// entity, per the entity's and its class's permissions.
    pub open spec fn spec_access_level(
        &self,
        account: AccountId,
        entity_id: EntityId,
        actor: Actor,
    ) -> Result<EntityAccessLevel, Error> {
        EntityAccessLevel::spec_derive(
            account,
            self.entity_by_id@[entity_id].entity_permission,
            &self.class_by_id@[self.entity_by_id@[entity_id].class_id].class_permissions,
            actor,
            &self.authority,
            self.curator_group_by_id@,
        )
    }

    /// The exact outcome of resolving origin, entity, and access level.
    pub open spec fn spec_class_entity_access(
        &self,
        origin: Origin,
        entity_id: EntityId,
        actor: Actor,
    ) -> Result<EntityAccessLevel, Error> {
        match origin.spec_signed() {
            None => Err(Error::AccessDenied),
            Some(account) => {
                if !self.entity_by_id@.dom().contains(entity_id) {
                    Err(Error::EntityNotFound)
                } else {
                    self.spec_access_level(account, entity_id, actor)
                }
            },
        }
    }

    /// Resolves the calling account's access level on the entity.
    pub(crate) fn class_entity_and_access_level(
        &self,
        origin: Origin,
        entity_id: EntityId,
        actor: &Actor,
    ) -> (r: Result<EntityAccessLevel, Error>)
        requires
            self.wf(),
        ensures
            r == self.spec_class_entity_access(origin, entity_id, *actor),
    {
        let account = match origin.ensure_signed() {
            Ok(account) => account,
            Err(e) => {
                return Err(e);
            },
        };
        let entity = match self.ensure_known_entity_id(entity_id) {
            Ok(entity) => entity,
            Err(e) => {
                return Err(e);
            },
        };
        let class = match self.class_by_id.get(entity.class_id) {
            Some(class) => class,
            None => {
                return Err(Error::InternalInvariantBroken);
            },
        };
        EntityAccessLevel::derive(
            account,
            entity.get_permissions(),
            class.get_permissions(),
            actor,
            &self.authority,
            &self.curator_group_by_id,
        )
    }

    /// The entity and the class it instantiates.
    pub fn get_entity_and_class(&self, entity_id: EntityId) -> (r: Result<
        (&Entity, &Class),
        Error,
    >)
        requires
            self.wf(),
        ensures
            match r {
                Ok(pair) => {
                    &&& self.entity_by_id@.dom().contains(entity_id)
                    &&& *pair.0 == self.entity_by_id@[entity_id]
                    &&& *pair.1 == self.class_by_id@[self.entity_by_id@[entity_id].class_id]
                },
                Err(e) => !self.entity_by_id@.dom().contains(entity_id) && e
                    == Error::EntityNotFound,
            },
    {
        let entity = match self.ensure_known_entity_id(entity_id) {
            Ok(entity) => entity,
            Err(e) => {
                return Err(e);
            },
        };
        match self.class_by_id.get(entity.class_id) {
            Some(class) => Ok((entity, class)),
            None => Err(Error::EntityNotFound),
        }
    }

    /// No property value anywhere points to the entity.
    pub fn ensure_rc_is_zero(&self, entity_id: EntityId) -> (r: Result<(), Error>)
        requires
            self.wf(),
        ensures
            r == if !self.entity_by_id@.dom().contains(entity_id) {
                Result::<(), Error>::Err(Error::EntityNotFound)
            } else if self.entity_by_id@[entity_id].reference_count != 0 {
                Result::<(), Error>::Err(Error::EntityRcNonZero)
            } else {
                Result::<(), Error>::Ok(())
            },
    {
        let entity = match self.ensure_known_entity_id(entity_id) {
            Ok(entity) => entity,
            Err(e) => {
                return Err(e);
            },
        };
        if entity.reference_count != 0 {
            Err(Error::EntityRcNonZero)
        } else {
            Ok(())
        }
    }

    /// No same-owner reference points to the entity.
    pub fn ensure_inbound_same_owner_rc_is_zero(entity: &Entity) -> (r: Result<(), Error>)
        ensures
            r == if entity.inbound_same_owner_references_from_other_entities_count != 0 {
                Result::<(), Error>::Err(Error::EntityRcNonZero)
            } else {
                Result::<(), Error>::Ok(())
            },
    {
        if entity.inbound_same_owner_references_from_other_entities_count != 0 {
            Err(Error::EntityRcNonZero)
        } else {
            Ok(())
        }
    }

    /// The exact outcome of `update_entity_permissions`.
    pub open spec fn spec_update_entity_permissions(
        &self,
        origin: Origin,
        entity_id: EntityId,
    ) -> Result<(), Error> {
        if !self.spec_is_lead_origin(origin) {
            Err(Error::AccessDenied)
        } else if !self.entity_by_id@.dom().contains(entity_id) {
            Err(Error::EntityNotFound)
        } else {
            Ok(())
        }
    }

    /// Overwrites the given subset of an entity's permission flags.  With
    /// nothing to update the call succeeds without an event.
    pub fn update_entity_permissions(
        &mut self,
        origin: Origin,
        entity_id: EntityId,
        updated_frozen: Option<bool>,
        updated_referenceable: Option<bool>,
    ) -> (r: Result<(), Error>)
        requires
            old(self).wf(),
        ensures
            final(self).wf(),
            r == old(self).spec_update_entity_permissions(origin, entity_id),
            r is Err ==> *final(self) == *old(self),
            r is Ok && updated_frozen is None && updated_referenceable is None ==> *final(self)
                == *old(self),
            r is Ok && !(updated_frozen is None && updated_referenceable is None) ==> {
                let e0 = old(self).entity_by_id@[entity_id];
                &&& final(self).entity_by_id@.dom() == old(self).entity_by_id@.dom()
                &&& final(self).entity_by_id@[entity_id].entity_permission == (EntityPermissions {
                    frozen: (match updated_frozen {
                        Some(v) => v,
                        None => e0.entity_permission.frozen,
                    }),
                    referenceable: (match updated_referenceable {
                        Some(v) => v,
                        None => e0.entity_permission.referenceable,
                    }),
                    ..e0.entity_permission
                })
                &&& final(self).entity_by_id@[entity_id].class_id == e0.class_id
                &&& final(self).entity_by_id@[entity_id].supported_schemas == e0.supported_schemas
                &&& final(self).entity_by_id@[entity_id].values == e0.values
                &&& final(self).entity_by_id@[entity_id].reference_count == e0.reference_count
                &&& final(self).entity_by_id@[entity_id].inbound_same_owner_references_from_other_entities_count
                    == e0.inbound_same_owner_references_from_other_entities_count
                &&& forall|id: EntityId|
                    id != entity_id && old(self).entity_by_id@.dom().contains(id) ==> final(self).entity_by_id@[id] == old(self).entity_by_id@[id]
                &&& final(self).events@ == old(self).events@.push(
                    Event::EntityPermissionsUpdated(entity_id),
                )
                &&& final(self).class_by_id == old(self).class_by_id
                &&& final(self).curator_group_by_id == old(self).curator_group_by_id
                &&& final(self).entity_creation_vouchers == old(self).entity_creation_vouchers
                &&& final(self).next_curator_group_id == old(self).next_curator_group_id
                &&& final(self).next_class_id == old(self).next_class_id
                &&& final(self).next_entity_id == old(self).next_entity_id
                &&& final(self).config == old(self).config
                &&& final(self).authority == old(self).authority
            },
    {
        if let Err(e) = self.ensure_is_lead(origin) {
            return Err(e);
        }
        if let Err(e) = self.ensure_known_entity_id(entity_id) {
            return Err(e);
        }
        if updated_frozen.is_none() && updated_referenceable.is_none() {
            return Ok(());
        }
        let mut entity = match self.entity_by_id.remove_key(entity_id) {
            Some(entity) => entity,
            None => {
                return Err(Error::EntityNotFound);
            },
        };
        if let Some(frozen) = updated_frozen {
            entity.entity_permission.set_frozen(frozen);
        }
        if let Some(referenceable) = updated_referenceable {
            entity.entity_permission.set_referenceable(referenceable);
        }
        self.entity_by_id.insert(entity_id, entity);
        self.events.push(Event::EntityPermissionsUpdated(entity_id));
        proof {
            assert(self.entity_by_id@.dom() =~= old(self).entity_by_id@.dom());
            Store::lemma_counts_unchanged(*old(self), *self);
        }
        Ok(())
    }

    /// Whether `account` acting as `actor` may create entities of the
    /// class: the lead, a curator of an active maintainer group, or any
    /// member when the class allows it.
    pub open spec fn spec_can_create_entities(
        &self,
        class_id: ClassId,
        account: AccountId,
        actor: Actor,
    ) -> bool {
        let permissions = self.class_by_id@[class_id].class_permissions;
        match actor {
            Actor::Lead => self.authority.spec_is_lead(account),
            Actor::Member(member_id) => permissions.any_member
                && self.authority.spec_is_member(member_id, account),
            Actor::Curator(group_id, curator_id) => spec_curator_ok(
                self.curator_group_by_id@,
                &self.authority,
                group_id,
                curator_id,
                account,
            ) && permissions.maintainers@.contains(group_id),
        }
    }

    fn can_create_entities(&self, class_id: ClassId, account: AccountId, actor: &Actor) -> (r:
        bool)
        requires
            self.wf(),
            self.class_by_id@.dom().contains(class_id),
        ensures
            r == self.spec_can_create_entities(class_id, account, *actor),
    {
        let class = match self.class_by_id.get(class_id) {
            Some(class) => class,
            None => {
                return false;
            },
        };
        match actor {
            Actor::Lead => self.authority.is_lead(account),
            Actor::Member(member_id) => class.class_permissions.any_member_status()
                && self.authority.is_member(*member_id, account),
            Actor::Curator(group_id, curator_id) => curator_ok(
                &self.curator_group_by_id,
                &self.authority,
                *group_id,
                *curator_id,
                account,
            ) && class.class_permissions.is_maintainer(*group_id),
        }
    }

    /// The voucher still has room for one more entity.
    pub fn ensure_voucher_limit_not_reached(voucher: &EntityCreationVoucher) -> (r: Result<
        (),
        Error,
    >)
        ensures
            r == if voucher.entities_created < voucher.maximum_entities_count {
                Result::<(), Error>::Ok(())
            } else {
                Result::<(), Error>::Err(Error::VoucherLimitReached)
            },
    {
        if voucher.limit_not_reached() {
            Ok(())
        } else {
            Err(Error::VoucherLimitReached)
        }
    }

    /// The exact outcome of `create_entity`.
    pub open spec fn spec_create_entity(
        &self,
        origin: Origin,
        class_id: ClassId,
        actor: Actor,
    ) -> Result<(), Error> {
        match origin.spec_signed() {
            None => Err(Error::AccessDenied),
            Some(account) => {
                if !self.class_by_id@.dom().contains(class_id) {
                    Err(Error::ClassNotFound)
                } else if self.class_by_id@[class_id].current_number_of_entities
                    >= self.class_by_id@[class_id].maximum_entities_count {
                    Err(Error::EntitiesPerClassLimitReached)
                } else if self.class_by_id@[class_id].class_permissions.entity_creation_blocked {
                    Err(Error::EntityCreationBlocked)
                } else if !self.spec_can_create_entities(class_id, account, actor) {
                    Err(Error::AccessDenied)
                } else {
                    let key = VoucherKey {
                        class_id,
                        controller: EntityController::spec_from_actor(actor),
                    };
                    let voucher = if self.entity_creation_vouchers@.dom().contains(key) {
                        self.entity_creation_vouchers@[key]
                    } else {
                        EntityCreationVoucher {
                            maximum_entities_count: self.class_by_id@[
                                class_id
                            ].per_controller_entity_creation_limit,
                            entities_created: 0,
                        }
                    };
                    if voucher.entities_created >= voucher.maximum_entities_count {
                        Err(Error::VoucherLimitReached)
                    } else if self.next_entity_id == EntityId::MAX {
                        Err(Error::InternalInvariantBroken)
                    } else {
                        Ok(())
                    }
                }
            },
        }
    }

    /// Creates an empty entity of the class under the next entity id.  The
    /// creating actor's controller gets (or first receives) the voucher,
    /// which is counted up.
    pub fn create_entity(&mut self, origin: Origin, class_id: ClassId, actor: Actor) -> (r: Result<
        (),
        Error,
    >)
        requires
            old(self).wf(),
        ensures
            final(self).wf(),
            r == old(self).spec_create_entity(origin, class_id, actor),
            r is Err ==> *final(self) == *old(self),
            r is Ok ==> {
                let eid = old(self).next_entity_id;
                let controller = EntityController::spec_from_actor(actor);
                let key = VoucherKey { class_id, controller };
                let existed = old(self).entity_creation_vouchers@.dom().contains(key);
                let v0 = if existed {
                    old(self).entity_creation_vouchers@[key]
                } else {
                    EntityCreationVoucher {
                        maximum_entities_count: old(self).class_by_id@[
                            class_id
                        ].per_controller_entity_creation_limit,
                        entities_created: 0,
                    }
                };
                let c0 = old(self).class_by_id@[class_id];
                &&& final(self).entity_by_id@.dom() =~= old(self).entity_by_id@.dom().insert(eid)
                &&& final(self).entity_by_id@[eid].class_id == class_id
                &&& final(self).entity_by_id@[eid].entity_permission == (EntityPermissions {
                    controller,
                    frozen: false,
                    referenceable: true,
                })
                &&& final(self).entity_by_id@[eid].supported_schemas@ == Set::<SchemaId>::empty()
                &&& final(self).entity_by_id@[eid].values@ == Map::<u64, PropertyValue>::empty()
                &&& final(self).entity_by_id@[eid].reference_count == 0
                &&& final(self).entity_by_id@[eid].inbound_same_owner_references_from_other_entities_count == 0
                &&& forall|id: EntityId|
                    id != eid && old(self).entity_by_id@.dom().contains(id) ==> final(self).entity_by_id@[id] == old(self).entity_by_id@[id]
                &&& final(self).next_entity_id == eid + 1
                &&& final(self).entity_creation_vouchers@ == old(self).entity_creation_vouchers@.insert(
                    key,
                    (EntityCreationVoucher {
                        entities_created: (v0.entities_created + 1) as EntityId,
                        ..v0
                    }),
                )
                &&& final(self).class_by_id@.dom() == old(self).class_by_id@.dom()
                &&& final(self).class_by_id@[class_id] == (Class {
                    current_number_of_entities: (c0.current_number_of_entities + 1) as EntityId,
                    ..c0
                })
                &&& forall|id: ClassId|
                    id != class_id && old(self).class_by_id@.dom().contains(id) ==> final(self).class_by_id@[id] == old(self).class_by_id@[id]
                &&& final(self).events@ == old(self).events@.push(Event::EntityCreated(actor, eid))
                &&& final(self).curator_group_by_id == old(self).curator_group_by_id
                &&& final(self).next_curator_group_id == old(self).next_curator_group_id
                &&& final(self).next_class_id == old(self).next_class_id
                &&& final(self).config == old(self).config
                &&& final(self).authority == old(self).authority
            },
    {
        let account = match origin.ensure_signed() {
            Ok(account) => account,
            Err(e) => {
                return Err(e);
            },
        };
        let per_controller_limit = {
            let class = match self.ensure_known_class_id(class_id) {
                Ok(class) => class,
                Err(e) => {
                    return Err(e);
                },
            };
            if let Err(e) = class.ensure_maximum_entities_count_limit_not_reached() {
                return Err(e);
            }
            if let Err(e) = class.get_permissions().ensure_entity_creation_not_blocked() {
                return Err(e);
            }
            class.per_controller_entity_creation_limit
        };
        if !self.can_create_entities(class_id, account, &actor) {
            return Err(Error::AccessDenied);
        }
        let entity_controller = EntityController::from_actor(&actor);
        let key = VoucherKey { class_id, controller: entity_controller };
        let mut voucher = match self.entity_creation_vouchers.get(key) {
            Some(voucher) => *voucher,
            None => EntityCreationVoucher::new(per_controller_limit),
        };
        if let Err(e) = Store::ensure_voucher_limit_not_reached(&voucher) {
            return Err(e);
        }
        if self.next_entity_id == EntityId::MAX {
            return Err(Error::InternalInvariantBroken);
        }
        voucher.increment_created_entities_count();
        self.entity_creation_vouchers.insert(key, voucher);
        let entity_id = self.next_entity_id;
        let new_entity = Entity::new(entity_controller, class_id);
        self.entity_by_id.insert(entity_id, new_entity);
        self.next_entity_id = self.next_entity_id + 1;
        let mut class = match self.class_by_id.remove_key(class_id) {
            Some(class) => class,
            None => {
                return Err(Error::ClassNotFound);
            },
        };
        class.increment_entities_count();
        self.class_by_id.insert(class_id, class);
        self.events.push(Event::EntityCreated(actor, entity_id));
        proof {
            assert(self.entity_by_id@.dom() =~= old(self).entity_by_id@.dom().insert(entity_id));
            assert(self.class_by_id@.dom() =~= old(self).class_by_id@.dom());
            old(self).entity_by_id.lemma_entries();
            if old(self).entity_by_id@.dom().contains(entity_id) {
                assert(entity_id < old(self).next_entity_id);
            }
            Store::lemma_counts_after_entity_insert(*old(self), *self, entity_id, class_id);
        }
        Ok(())
    }

    /// The exact outcome of `remove_entity`.
    pub open spec fn spec_remove_entity(
        &self,
        origin: Origin,
        actor: Actor,
        entity_id: EntityId,
    ) -> Result<(), Error> {
        match self.spec_class_entity_access(origin, entity_id, actor) {
            Err(e) => Err(e),
            Ok(access_level) => {
                if EntityPermissions::spec_can_remove(access_level) is Err {
                    Err(Error::AccessDenied)
                } else if self.entity_by_id@[entity_id].reference_count != 0 {
                    Err(Error::EntityRcNonZero)
                } else if self.class_by_id@[
                    self.entity_by_id@[entity_id].class_id
                ].current_number_of_entities == 0 {
                    Err(Error::InternalInvariantBroken)
                } else {
                    Ok(())
                }
            },
        }
    }

    /// Removes an entity nothing references any more, and counts it out of
    /// its class.
    pub fn remove_entity(&mut self, origin: Origin, actor: Actor, entity_id: EntityId) -> (r:
        Result<(), Error>)
        requires
            old(self).wf(),
        ensures
            final(self).wf(),
            r == old(self).spec_remove_entity(origin, actor, entity_id),
            r is Err ==> *final(self) == *old(self),
            r is Ok ==> {
                let e0 = old(self).entity_by_id@[entity_id];
                let c0 = old(self).class_by_id@[e0.class_id];
                &&& final(self).entity_by_id@ == old(self).entity_by_id@.remove(entity_id)
                &&& final(self).class_by_id@.dom() == old(self).class_by_id@.dom()
                &&& final(self).class_by_id@[e0.class_id] == (Class {
                    current_number_of_entities: (c0.current_number_of_entities - 1) as EntityId,
                    ..c0
                })
                &&& forall|id: ClassId|
                    id != e0.class_id && old(self).class_by_id@.dom().contains(id) ==> final(self).class_by_id@[id] == old(self).class_by_id@[id]
                &&& final(self).events@ == old(self).events@.push(
                    Event::EntityRemoved(actor, entity_id),
                )
                &&& final(self).curator_group_by_id == old(self).curator_group_by_id
                &&& final(self).entity_creation_vouchers == old(self).entity_creation_vouchers
                &&& final(self).next_curator_group_id == old(self).next_curator_group_id
                &&& final(self).next_class_id == old(self).next_class_id
                &&& final(self).next_entity_id == old(self).next_entity_id
                &&& final(self).config == old(self).config
                &&& final(self).authority == old(self).authority
            },
    {
        let access_level = match self.class_entity_and_access_level(origin, entity_id, &actor) {
            Ok(level) => level,
            Err(e) => {
                return Err(e);
            },
        };
        if let Err(_) = EntityPermissions::ensure_group_can_remove_entity(access_level) {
            return Err(Error::AccessDenied);
        }
        if let Err(e) = self.ensure_rc_is_zero(entity_id) {
            return Err(e);
        }
        let class_id = match self.entity_by_id.get(entity_id) {
            Some(entity) => entity.class_id,
            None => {
                return Err(Error::EntityNotFound);
            },
        };
        {
            let class = match self.class_by_id.get(class_id) {
                Some(class) => class,
                None => {
                    return Err(Error::InternalInvariantBroken);
                },
            };
            if class.current_number_of_entities == 0 {
                return Err(Error::InternalInvariantBroken);
            }
        }
        self.entity_by_id.remove_key(entity_id);
        let mut class = match self.class_by_id.remove_key(class_id) {
            Some(class) => class,
            None => {
                return Err(Error::InternalInvariantBroken);
            },
        };
        class.decrement_entities_count();
        self.class_by_id.insert(class_id, class);
        self.events.push(Event::EntityRemoved(actor, entity_id));
        proof {
            assert(self.class_by_id@.dom() =~= old(self).class_by_id@.dom());
            old(self).entity_by_id.lemma_entries();
            Store::lemma_counts_after_entity_remove(*old(self), *self, entity_id, class_id);
        }
        Ok(())
    }
}

} // verus!

//! Validation of property values against declared types and the store:
//! shape and bounds, reference targets, per-property locks, and uniqueness.

use vstd::prelude::*;
use crate::class::Class;
use crate::collections::KvMap;
use crate::entity::Entity;
use crate::errors::Error;
use crate::permissions::EntityAccessLevel;
use crate::permissions::EntityController;
use crate::schema::pv_eq;
use crate::schema::spec_value_fits_inner;
use crate::schema::spec_vec_fits_type;
use crate::schema::value_fits_inner;
use crate::schema::vec_fits_type;
use crate::schema::PropertyType;
use crate::schema::PropertyValue;
use crate::schema::Type;
use crate::schema::Value;
use crate::store::Store;
use crate::EntityId;
use crate::PropertyId;

verus! {

impl Store {
    /// Whether `target` may be referenced: it exists, is referenceable,
    /// and — for a same-controller reference — shares `controller`.
    pub open spec fn spec_check_reference(
        &self,
        target: EntityId,
        same_controller: bool,
        controller: EntityController,
    ) -> Result<(), Error> {
        if !self.entity_by_id@.dom().contains(target) {
            Err(Error::EntityNotFound)
        } else if !self.entity_by_id@[target].entity_permission.referenceable {
            Err(Error::ReferencedEntityNotReferenceable)
        } else if same_controller && self.entity_by_id@[target].entity_permission.controller
            != controller {
            Err(Error::SameOwnerConstraintViolated)
        } else {
            Ok(())
        }
    }

    pub(crate) fn check_reference(
        &self,
        target: EntityId,
        same_controller: bool,
        controller: &EntityController,
    ) -> (r: Result<(), Error>)
        requires
            self.wf(),
        ensures
            r == self.spec_check_reference(target, same_controller, *controller),
    {
        let entity = match self.entity_by_id.get(target) {
            Some(entity) => entity,
            None => {
                return Err(Error::EntityNotFound);
            },
        };
        if !entity.entity_permission.referenceable {
            return Err(Error::ReferencedEntityNotReferenceable);
        }
        if same_controller && !entity.entity_permission.controller_is_equal_to(controller) {
            return Err(Error::SameOwnerConstraintViolated);
        }
        Ok(())
    }

    /// The first failing reference among `targets`, in order.
    pub open spec fn spec_check_references(
        &self,
        targets: Seq<EntityId>,
        same_controller: bool,
        controller: EntityController,
    ) -> Result<(), Error>
        decreases targets.len(),
    {
        if targets.len() == 0 {
            Ok(())
        } else {
            match self.spec_check_reference(targets[0], same_controller, controller) {
                Err(e) => Err(e),
                Ok(()) => self.spec_check_references(
                    targets.drop_first(),
                    same_controller,
                    controller,
                ),
            }
        }
    }

    pub(crate) fn check_references(
        &self,
        targets: &Vec<EntityId>,
        same_controller: bool,
        controller: &EntityController,
    ) -> (r: Result<(), Error>)
        requires
            self.wf(),
        ensures
            r == self.spec_check_references(targets@, same_controller, *controller),
    {
        let n = targets.len();
        let mut i: usize = 0;
        proof {
            assert(targets@.skip(0) =~= targets@);
        }
        while i < n
            invariant
                self.wf(),
                n == targets.len(),
                i <= n,
                self.spec_check_references(targets@, same_controller, *controller)
                    == self.spec_check_references(
                    targets@.skip(i as int),
                    same_controller,
                    *controller,
                ),
            decreases n - i,
        {
            proof {
                assert(targets@.skip(i as int)[0] == targets@[i as int]);
            }
            if let Err(e) = self.check_reference(targets[i], same_controller, controller) {
                return Err(e);
            }
            proof {
                assert(targets@.skip(i as int).drop_first() =~= targets@.skip(i + 1 as int));
            }
            i += 1;
        }
        proof {
            assert(targets@.skip(n as int) =~= Seq::<EntityId>::empty());
        }
        Ok(())
    }

    /// The full validity of a value against a declared property type: shape
    /// and bounds first, then every referenced entity.
    pub open spec fn spec_value_to_update_valid(
        &self,
        prop_type: PropertyType,
        value: PropertyValue,
        controller: EntityController,
    ) -> Result<(), Error> {
        match (prop_type, value) {
            (PropertyType::Single(t), PropertyValue::Single(sv)) => {
                if spec_value_fits_inner(t, sv.value) is Err {
                    spec_value_fits_inner(t, sv.value)
                } else {
                    match (t, sv.value) {
                        (Type::Reference(_, same_controller), Value::Reference(target)) => self
                            .spec_check_reference(target, same_controller, controller),
                        _ => Ok(()),
                    }
                }
            },
            (PropertyType::Vector(vt), PropertyValue::Vector(vv)) => {
                if spec_vec_fits_type(vt, vv.vec_value) is Err {
                    spec_vec_fits_type(vt, vv.vec_value)
                } else {
                    match (vt.vec_type, vv.vec_value.spec_involved_entities()) {
                        (Type::Reference(_, same_controller), Some(targets)) => self
                            .spec_check_references(targets, same_controller, controller),
                        _ => Ok(()),
                    }
                }
            },
            _ => Err(Error::ValueTypeMismatch),
        }
    }

    /// Checks shape, bounds, and reference targets of `value` against the
    /// declared `prop_type`.
    pub fn ensure_property_value_to_update_is_valid(
        &self,
        prop_type: PropertyType,
        value: &PropertyValue,
        controller: &EntityController,
    ) -> (r: Result<(), Error>)
        requires
            self.wf(),
        ensures
            r == self.spec_value_to_update_valid(prop_type, *value, *controller),
    {
        match (&prop_type, value) {
            (PropertyType::Single(t), PropertyValue::Single(sv)) => {
                if let Err(e) = value_fits_inner(*t, &sv.value) {
                    return Err(e);
                }
                match (t, &sv.value) {
                    (Type::Reference(_, same_controller), Value::Reference(target)) => self
                        .check_reference(*target, *same_controller, controller),
                    _ => Ok(()),
                }
            },
            (PropertyType::Vector(vt), PropertyValue::Vector(vv)) => {
                if let Err(e) = vec_fits_type(*vt, &vv.vec_value) {
                    return Err(e);
                }
                match (vt.vec_type, vv.vec_value.get_involved_entities()) {
                    (Type::Reference(_, same_controller), Some(targets)) => self.check_references(
                        &targets,
                        same_controller,
                        controller,
                    ),
                    _ => {
                        proof {
                            if vv.vec_value.spec_involved_entities() is Some {
                                assert(vt.vec_type is Reference ==> spec_vec_fits_type(
                                    *vt,
                                    vv.vec_value,
                                ) is Err || vv.vec_value.spec_involved_entities() is Some);
                            }
                        }
                        Ok(())
                    },
                }
            },
            _ => Err(Error::ValueTypeMismatch),
        }
    }

    /// The property under `prop_id` exists on the class and is writable at
    /// the caller's access level.
    pub open spec fn spec_class_property_type_unlocked_for(
        class: &Class,
        prop_id: PropertyId,
        access_level: EntityAccessLevel,
    ) -> Result<PropertyType, Error> {
        if class.class_permissions.all_entity_property_values_locked {
            Err(Error::AllPropertiesLockedAtClassLevel)
        } else if prop_id as int >= class.properties@.len() {
            Err(Error::UnknownPropertyId)
        } else if class.properties@[prop_id as int].spec_is_locked_from(access_level) {
            Err(Error::PropertyLockedForActor)
        } else {
            Ok(class.properties@[prop_id as int].prop_type)
        }
    }

    /// Rejects a write to a property that is locked at class level, does
    /// not exist, or is locked for the caller; hands back its type.
    pub fn ensure_class_property_type_unlocked_for(
        class: &Class,
        prop_id: PropertyId,
        access_level: EntityAccessLevel,
    ) -> (r: Result<PropertyType, Error>)
        ensures
            r == Store::spec_class_property_type_unlocked_for(class, prop_id, access_level),
    {
        if class.class_permissions.all_entity_property_values_locked() {
            return Err(Error::AllPropertiesLockedAtClassLevel);
        }
        proof {
            vstd::std_specs::vec::axiom_spec_len(&class.properties);
        }
        if prop_id >= class.properties.len() as u64 {
            return Err(Error::UnknownPropertyId);
        }
        let property = &class.properties[prop_id as usize];
        if property.is_locked_from(access_level) {
            return Err(Error::PropertyLockedForActor);
        }
        Ok(property.prop_type)
    }

    /// The vector property value stored on the entity under `prop_id`.
    pub open spec fn spec_property_value_vec(entity: &Entity, prop_id: PropertyId) -> Result<
        crate::schema::VecPropertyValue,
        Error,
    > {
        if !entity.values@.dom().contains(prop_id) {
            Err(Error::UnknownPropertyId)
        } else {
            match entity.values@[prop_id] {
                PropertyValue::Vector(v) => Ok(v),
                PropertyValue::Single(_) => Err(Error::ValueTypeMismatch),
            }
        }
    }

    /// The value under `prop_id` exists and is a vector.
    pub fn ensure_property_value_vec<'a>(entity: &'a Entity, prop_id: PropertyId) -> (r: Result<
        &'a crate::schema::VecPropertyValue,
        Error,
    >)
        requires
            entity.wf(),
        ensures
            match r {
                Ok(v) => Store::spec_property_value_vec(entity, prop_id) == Result::<
                    crate::schema::VecPropertyValue,
                    Error,
                >::Ok(*v),
                Err(e) => Store::spec_property_value_vec(entity, prop_id) == Result::<
                    crate::schema::VecPropertyValue,
                    Error,
                >::Err(e),
            },
    {
        match entity.values.get(prop_id) {
            None => Err(Error::UnknownPropertyId),
            Some(value) => match value.as_vec_property_value() {
                Some(v) => Ok(v),
                None => Err(Error::ValueTypeMismatch),
            },
        }
    }

    /// No property of the entity other than `prop_id` holds `value`.
    pub open spec fn spec_value_unique_on_entity(
        entity_values: Map<u64, PropertyValue>,
        prop_id: PropertyId,
        value: PropertyValue,
    ) -> bool {
        forall|k: u64|
            #[trigger] entity_values.dom().contains(k) && k != prop_id ==> !pv_eq(
                entity_values[k],
                value,
            )
    }

    /// Scans the entity's other values for one equal to `value`.
    pub(crate) fn value_unique_on_entity(
        values: &KvMap<PropertyValue>,
        prop_id: PropertyId,
        value: &PropertyValue,
    ) -> (r: bool)
        requires
            values.wf(),
        ensures
            r == Store::spec_value_unique_on_entity(values@, prop_id, *value),
    {
        let n = values.len();
        let mut i: usize = 0;
        while i < n
            invariant
                values.wf(),
                n == values.entry_seq().len(),
                i <= n,
                forall|j: int|
                    0 <= j < i ==> ((#[trigger] values.entry_seq()[j]).0 != prop_id ==> !pv_eq(
                        values.entry_seq()[j].1,
                        *value,
                    )),
            decreases n - i,
        {
            let (k, v) = values.entry_at(i);
            if k != prop_id && v.equals(value) {
                proof {
                    values.lemma_entries();
                }
                return false;
            }
            i += 1;
        }
        proof {
            values.lemma_entries();
            assert forall|k: u64| #[trigger] values@.dom().contains(k) && k != prop_id implies !pv_eq(
                values@[k],
                *value,
            ) by {
                let ks = crate::collections::key_seq(values.entry_seq());
                assert(ks.to_set().contains(k));
                assert(ks.contains(k));
                let j = choose|j: int| 0 <= j < ks.len() && ks[j] == k;
                assert(values.entry_seq()[j].0 == k);
                assert(values@[k] == values.entry_seq()[j].1);
            }
        }
        true
    }
}

} // verus!

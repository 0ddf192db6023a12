//! Batched operations: a `transaction` dispatches a bounded list of
//! entity operations in order, letting later operations refer to entities
//! created earlier in the same batch by their operation index.

use vstd::prelude::*;
use crate::collections::KvMap;
use crate::errors::Error;
use crate::events::Event;
use crate::permissions::Actor;
use crate::permissions::Origin;
use crate::schema::PropertyValue;
use crate::schema::SinglePropertyValue;
use crate::schema::Value;
use crate::schema::VecPropertyValue;
use crate::schema::VecValue;
use crate::store::Store;
use crate::ClassId;
use crate::EntityId;
use crate::PropertyId;
use crate::SchemaId;

verus! {

/// An entity argument of a batched operation: a concrete id, or the
/// output of an earlier `CreateEntity` operation in the same batch.
#[derive(Clone, Copy, Debug, PartialEq, Eq, Structural)]
pub enum ParametrizedEntity {
    InternalEntityJustAdded(u32),
    ExistingEntity(EntityId),
}

/// A property value of a batched operation: a literal value, a reference
/// to an entity created earlier in the batch, or a vector of such
/// references.
#[derive(Clone, Debug, PartialEq, Eq)]
pub enum ParametrizedPropertyValue {
    PropertyValue(PropertyValue),
    InternalEntityJustAdded(u32),
    InternalEntityVec(Vec<ParametrizedEntity>),
}

/// One property assignment inside a batched operation.
#[derive(Clone, Debug, PartialEq, Eq)]
pub struct ParametrizedClassPropertyValue {
    pub in_class_index: PropertyId,
    pub value: ParametrizedPropertyValue,
}

#[derive(Clone, Copy, Debug, PartialEq, Eq, Structural)]
pub struct CreateEntityOperation {
    pub class_id: ClassId,
}

#[derive(Clone, Debug, PartialEq, Eq)]
pub struct UpdatePropertyValuesOperation {
    pub entity_id: ParametrizedEntity,
    pub new_parametrized_property_values: Vec<ParametrizedClassPropertyValue>,
}

#[derive(Clone, Debug, PartialEq, Eq)]
pub struct AddSchemaSupportToEntityOperation {
    pub entity_id: ParametrizedEntity,
    pub schema_id: SchemaId,
    pub parametrized_property_values: Vec<ParametrizedClassPropertyValue>,
}

/// One batched operation.
#[derive(Clone, Debug, PartialEq, Eq)]
pub enum OperationType {
    CreateEntity(CreateEntityOperation),
    UpdatePropertyValues(UpdatePropertyValuesOperation),
    AddSchemaSupportToEntity(AddSchemaSupportToEntityOperation),
}

/// The entity id a parametrized entity resolves to under the batch's
/// created-entity map.
pub open spec fn spec_resolve_entity(
    created: Map<u64, EntityId>,
    entity: ParametrizedEntity,
) -> Result<EntityId, Error> {
    match entity {
        ParametrizedEntity::ExistingEntity(id) => Ok(id),
        ParametrizedEntity::InternalEntityJustAdded(index) => {
            if created.dom().contains(index as u64) {
                Ok(created[index as u64])
            } else {
                Err(Error::InternalEntityReferencesOutOfBounds)
            }
        },
    }
}

/// Resolves a parametrized entity against the created-entity map.
pub fn parametrized_entity_to_entity_id(
    created: &KvMap<EntityId>,
    entity: ParametrizedEntity,
) -> (r: Result<EntityId, Error>)
    requires
        created.wf(),
    ensures
        r == spec_resolve_entity(created@, entity),
{
    match entity {
        ParametrizedEntity::ExistingEntity(id) => Ok(id),
        ParametrizedEntity::InternalEntityJustAdded(index) => match created.get(index as u64) {
            Some(id) => Ok(*id),
            None => Err(Error::InternalEntityReferencesOutOfBounds),
        },
    }
}

/// Resolves one parametrized property value; referenced vectors start at
/// nonce zero.
fn parametrized_value_to_value(created: &KvMap<EntityId>, value: ParametrizedPropertyValue) -> (r:
    Result<PropertyValue, Error>)
    requires
        created.wf(),
    ensures
        r is Err ==> r == Result::<PropertyValue, Error>::Err(
            Error::InternalEntityReferencesOutOfBounds,
        ),
{
    match value {
        ParametrizedPropertyValue::PropertyValue(v) => Ok(v),
        ParametrizedPropertyValue::InternalEntityJustAdded(index) => {
            match created.get(index as u64) {
                Some(id) => Ok(
                    PropertyValue::Single(SinglePropertyValue::new(Value::Reference(*id))),
                ),
                None => Err(Error::InternalEntityReferencesOutOfBounds),
            }
        },
        ParametrizedPropertyValue::InternalEntityVec(entities) => {
            let n = entities.len();
            let mut ids: Vec<EntityId> = Vec::new();
            let mut i: usize = 0;
            while i < n
                invariant
                    created.wf(),
                    n == entities.len(),
                    i <= n,
                decreases n - i,
            {
                match parametrized_entity_to_entity_id(created, entities[i]) {
                    Ok(id) => ids.push(id),
                    Err(e) => {
                        return Err(e);
                    },
                }
                i += 1;
            }
            Ok(
                PropertyValue::Vector(
                    VecPropertyValue::new(VecValue::Reference(ids), 0),
                ),
            )
        },
    }
}

/// Resolves a list of parametrized property assignments into a value map;
/// a later assignment to the same property replaces the earlier one.
pub fn parametrized_property_values_to_property_values(
    created: &KvMap<EntityId>,
    values: Vec<ParametrizedClassPropertyValue>,
) -> (r: Result<KvMap<PropertyValue>, Error>)
    requires
        created.wf(),
    ensures
        match r {
            Ok(m) => m.wf(),
            Err(e) => e == Error::InternalEntityReferencesOutOfBounds,
        },
{
    let mut result: KvMap<PropertyValue> = KvMap::new();
    let mut rest = values;
    while rest.len() > 0
        invariant
            created.wf(),
            result.wf(),
        decreases rest@.len(),
    {
        let pcv = rest.remove(0);
        match parametrized_value_to_value(created, pcv.value) {
            Ok(v) => {
                result.insert(pcv.in_class_index, v);
            },
            Err(e) => {
                return Err(e);
            },
        }
    }
    Ok(result)
}

impl Store {
    /// The batch is within the configured operation count.
    pub fn ensure_number_of_operations_during_atomic_batching_limit_not_reached(
        &self,
        operations: &Vec<OperationType>,
    ) -> (r: Result<(), Error>)
        ensures
            r == if operations@.len()
                <= self.config.max_number_of_operations_during_atomic_batching {
                Result::<(), Error>::Ok(())
            } else {
                Result::<(), Error>::Err(Error::OpsPerBatchLimitReached)
            },
    {
        if operations.len() as u64
            <= self.config.max_number_of_operations_during_atomic_batching as u64 {
            Ok(())
        } else {
            Err(Error::OpsPerBatchLimitReached)
        }
    }

    /// Dispatches the operations in order as standalone calls under the
    /// same origin and actor, recording each created entity id so that
    /// later operations can refer to it by operation index.  On the first
    /// failing operation the already-applied prefix stays: all-or-nothing
    /// semantics over the batch are the host's extrinsic transaction, as
    /// with every other call.
    /// Dispatches one batched operation under the created-entity map:
    /// creation is exact and records the fresh id under the operation's
    /// index; the two value operations first resolve their target against
    /// the map — an unresolved index propagates verbatim — and then run
    /// under their own contracts.
    pub fn apply_operation(
        &mut self,
        origin: Origin,
        actor: Actor,
        op_index: u64,
        operation: OperationType,
        created: &mut KvMap<EntityId>,
    ) -> (r: Result<(), Error>)
        requires
            old(self).wf(),
            old(created).wf(),
        ensures
            final(self).wf(),
            final(created).wf(),
            final(self).config == old(self).config,
            final(self).authority == old(self).authority,
            final(self).events@.len() >= old(self).events@.len(),
            final(self).events@.subrange(0, old(self).events@.len() as int) == old(self).events@,
            (r is Err && r != Result::<(), Error>::Err(Error::InternalInvariantBroken)) ==> *final(self) == *old(self),
            (match operation {
                OperationType::CreateEntity(op) => {
                    &&& r == old(self).spec_create_entity(origin, op.class_id, actor)
                    &&& (r is Ok ==> final(created)@ == old(created)@.insert(
                        op_index,
                        old(self).next_entity_id,
                    ) && final(self).entity_by_id@.dom() == old(self).entity_by_id@.dom().insert(
                        old(self).next_entity_id,
                    ) && final(self).next_entity_id == old(self).next_entity_id + 1)
                    &&& (r is Err ==> *final(created) == *old(created))
                },
                OperationType::UpdatePropertyValues(op) => {
                    &&& *final(created) == *old(created)
                    &&& (spec_resolve_entity(old(created)@, op.entity_id) matches Err(e2) ==> r
                        == Result::<(), Error>::Err(e2))
                    &&& (r is Ok ==> spec_resolve_entity(old(created)@, op.entity_id) is Ok)
                },
                OperationType::AddSchemaSupportToEntity(op) => {
                    &&& *final(created) == *old(created)
                    &&& (spec_resolve_entity(old(created)@, op.entity_id) matches Err(e2) ==> r
                        == Result::<(), Error>::Err(e2))
                    &&& (r is Ok ==> spec_resolve_entity(old(created)@, op.entity_id) is Ok
                        && (match spec_resolve_entity(old(created)@, op.entity_id) {
                        Ok(eid) => final(self).entity_by_id@.dom().contains(eid) && final(self).entity_by_id@[eid].supported_schemas@.contains(op.schema_id),
                        Err(_) => false,
                    }))
                },
            }),
    {
        match operation {
            OperationType::CreateEntity(create_entity_operation) => {
                let entity_id = self.next_entity_id;
                if let Err(e) = self.create_entity(
                    origin,
                    create_entity_operation.class_id,
                    actor,
                ) {
                    return Err(e);
                }
                created.insert(op_index, entity_id);
                Ok(())
            },
            OperationType::UpdatePropertyValues(update_operation) => {
                let entity_id = match parametrized_entity_to_entity_id(
                    created,
                    update_operation.entity_id,
                ) {
                    Ok(id) => id,
                    Err(e) => {
                        return Err(e);
                    },
                };
                let property_values = match parametrized_property_values_to_property_values(
                    created,
                    update_operation.new_parametrized_property_values,
                ) {
                    Ok(m) => m,
                    Err(e) => {
                        return Err(e);
                    },
                };
                self.update_entity_property_values(origin, actor, entity_id, property_values)
            },
            OperationType::AddSchemaSupportToEntity(add_operation) => {
                let entity_id = match parametrized_entity_to_entity_id(
                    created,
                    add_operation.entity_id,
                ) {
                    Ok(id) => id,
                    Err(e) => {
                        return Err(e);
                    },
                };
                let schema_id = add_operation.schema_id;
                let property_values = match parametrized_property_values_to_property_values(
                    created,
                    add_operation.parametrized_property_values,
                ) {
                    Ok(m) => m,
                    Err(e) => {
                        return Err(e);
                    },
                };
                self.add_schema_support_to_entity(
                    origin,
                    actor,
                    entity_id,
                    schema_id,
                    property_values,
                )
            },
        }
    }

    /// Dispatches the operations in order as standalone calls under the
    /// same origin and actor, recording each created entity id so that
    /// later operations can refer to it by operation index.  Each
    /// dispatched call carries its own exact contract; the first failing
    /// one ends the batch with its error, and the already-applied prefix
    /// stays — all-or-nothing semantics over the batch are the host's
    /// extrinsic transaction, as with every other call.
    pub fn transaction(
        &mut self,
        origin: Origin,
        actor: Actor,
        operations: Vec<OperationType>,
    ) -> (r: Result<(), Error>)
        requires
            old(self).wf(),
        ensures
            final(self).wf(),
            operations@.len() > old(self).config.max_number_of_operations_during_atomic_batching
                ==> r == Result::<(), Error>::Err(Error::OpsPerBatchLimitReached) && *final(self)
                == *old(self),
            operations@.len() == 0 ==> r is Ok && *final(self) == (Store {
                events: final(self).events,
                ..*old(self)
            }),
            r is Ok ==> final(self).events@.len() > 0 && final(self).events@.last()
                == Event::TransactionCompleted(actor),
            final(self).config == old(self).config,
            final(self).authority == old(self).authority,
    {
        if let Err(e) = self.ensure_number_of_operations_during_atomic_batching_limit_not_reached(
            &operations,
        ) {
            return Err(e);
        }
        let mut entity_created_in_operation: KvMap<EntityId> = KvMap::new();
        let mut ops = operations;
        let mut op_index: u64 = 0;
        while ops.len() > 0
            invariant
                self.wf(),
                entity_created_in_operation.wf(),
                self.config == old(self).config,
                self.authority == old(self).authority,
                self.events@.len() >= old(self).events@.len(),
                self.events@.subrange(0, old(self).events@.len() as int) == old(self).events@,
                ops@ == operations@.skip(op_index as int),
                op_index as int + ops@.len() == operations@.len(),
                operations@.len() <= old(self).config.max_number_of_operations_during_atomic_batching,
                operations@.len() == 0 ==> *self == *old(self) && ops@.len() == 0,
                op_index == 0 ==> *self == *old(self) && entity_created_in_operation@ == Map::<
                    u64,
                    EntityId,
                >::empty(),
                op_index >= 1 && operations@.len() >= 1 ==> (match operations@[0] {
                    OperationType::CreateEntity(op) => old(self).spec_create_entity(
                        origin,
                        op.class_id,
                        actor,
                    ) is Ok,
                    OperationType::UpdatePropertyValues(op) => spec_resolve_entity(
                        Map::empty(),
                        op.entity_id,
                    ) is Ok,
                    OperationType::AddSchemaSupportToEntity(op) => spec_resolve_entity(
                        Map::empty(),
                        op.entity_id,
                    ) is Ok,
                }),
            decreases ops@.len(),
        {
            let operation = ops.remove(0);
            proof {
                assert(operations@.skip(op_index as int)[0] == operations@[op_index as int]);
                assert(ops@ =~= operations@.skip(op_index + 1 as int));
            }
            let ghost created_pre = entity_created_in_operation@;
            if let Err(e) = self.apply_operation(
                origin,
                actor,
                op_index,
                operation,
                &mut entity_created_in_operation,
            ) {
                return Err(e);
            }
            proof {
                if op_index == 0 {
                    assert(created_pre =~= Map::<u64, EntityId>::empty());
                }
            }
            if op_index < u64::MAX {
                op_index = op_index + 1;
            }
        }
        self.events.push(Event::TransactionCompleted(actor));
        Ok(())
    }
}

} // verus!

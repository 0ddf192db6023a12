//! Classes: named type declarations with properties, schemas, permissions,
//! and entity-count limits.

use vstd::prelude::*;
use crate::errors::Error;
use crate::permissions::ClassPermissions;
use crate::schema::Property;
use crate::schema::Schema;
use crate::EntityId;
use crate::MaxNumber;
use crate::SchemaId;

verus! {

/// A named type declaration.  Properties and schemas are append-only over
/// the class's lifetime; classes are never deleted.
#[derive(Debug)]
pub struct Class {
    /// Permissions for instances of the class.
    pub class_permissions: ClassPermissions,
    /// All properties ever used by the class's schemas, in declaration order.
    pub properties: Vec<Property>,
    /// All schemas of the class, in creation order; never removed.
    pub schemas: Vec<Schema>,
    pub name: Vec<u8>,
    pub description: Vec<u8>,
    /// The maximum number of entities which can be created.
    pub maximum_entities_count: EntityId,
    /// The current number of entities which exist.
    pub current_number_of_entities: EntityId,
    /// How many entities a given controller may create at most.
    pub per_controller_entity_creation_limit: EntityId,
}

impl Class {
    /// Property names are pairwise distinct within the class.
    pub open spec fn spec_property_names_unique(&self) -> bool {
        forall|i: int, j: int|
            0 <= i < j < self.properties@.len() ==> self.properties@[i].name@
                != self.properties@[j].name@
    }

    /// Every schema is non-empty and indexes only existing properties.
    pub open spec fn spec_schemas_valid(&self) -> bool {
        forall|s: int|
            0 <= s < self.schemas@.len() ==> {
                let props = (#[trigger] self.schemas@[s]).spec_properties();
                &&& props.len() > 0
                &&& forall|k: int|
                    0 <= k < props.len() ==> (#[trigger] props[k]) < self.properties@.len()
            }
    }

    /// Class-local well-formedness.
    pub open spec fn wf(&self) -> bool {
        &&& self.class_permissions.wf()
        &&& self.spec_property_names_unique()
        &&& self.spec_schemas_valid()
    }

    /// A fresh class without properties, schemas, or entities.
    pub fn new(
        class_permissions: ClassPermissions,
        name: Vec<u8>,
        description: Vec<u8>,
        maximum_entities_count: EntityId,
        per_controller_entity_creation_limit: EntityId,
    ) -> (r: Class)
        ensures
            r.class_permissions == class_permissions,
            r.properties@ == Seq::<Property>::empty(),
            r.schemas@ == Seq::<Schema>::empty(),
            r.name == name,
            r.description == description,
            r.maximum_entities_count == maximum_entities_count,
            r.current_number_of_entities == 0,
            r.per_controller_entity_creation_limit == per_controller_entity_creation_limit,
            class_permissions.wf() ==> r.wf(),
    {
        Class {
            class_permissions,
            properties: Vec::new(),
            schemas: Vec::new(),
            name,
            description,
            maximum_entities_count,
            current_number_of_entities: 0,
            per_controller_entity_creation_limit,
        }
    }

    /// Flips the active flag of the schema under `schema_index`.
    pub fn update_schema_status(&mut self, schema_index: SchemaId, schema_status: bool)
        requires
            (schema_index as int) < old(self).schemas@.len(),
        ensures
            final(self).schemas@ == old(self).schemas@.update(
                schema_index as int,
                (Schema {
                    is_active: schema_status,
                    ..old(self).schemas@[schema_index as int]
                }),
            ),
            final(self).class_permissions == old(self).class_permissions,
            final(self).properties == old(self).properties,
            final(self).name == old(self).name,
            final(self).description == old(self).description,
            final(self).maximum_entities_count == old(self).maximum_entities_count,
            final(self).current_number_of_entities == old(self).current_number_of_entities,
            final(self).per_controller_entity_creation_limit == old(
                self,
            ).per_controller_entity_creation_limit,
            old(self).wf() ==> final(self).wf(),
    {
        let ghost before = *self;
        proof {
            vstd::std_specs::vec::axiom_spec_len(&self.schemas);
        }
        let idx = schema_index as usize;
        let mut schema = self.schemas.remove(idx);
        schema.set_status(schema_status);
        proof {
            assert(schema =~= (Schema {
                is_active: schema_status,
                ..before.schemas@[schema_index as int]
            }));
            vstd::seq_lib::lemma_update_is_remove_insert(
                before.schemas@,
                schema_index as int,
                schema,
            );
        }
        self.schemas.insert(idx, schema);
        proof {
            assert(self.schemas@ == before.schemas@.update(
                schema_index as int,
                (Schema {
                    is_active: schema_status,
                    ..before.schemas@[schema_index as int]
                }),
            ));
            assert(self.schemas@[schema_index as int].spec_properties()
                == before.schemas@[schema_index as int].spec_properties());
            if before.wf() {
                assert forall|s: int| 0 <= s < self.schemas@.len() implies {
                    let props = (#[trigger] self.schemas@[s]).spec_properties();
                    props.len() > 0 && forall|k: int|
                        0 <= k < props.len() ==> (#[trigger] props[k]) < self.properties@.len()
                } by {
                    assert(self.schemas@[s].spec_properties()
                        == before.schemas@[s].spec_properties());
                }
            }
        }
    }

    /// Adds one to the class's entity count.
    pub fn increment_entities_count(&mut self)
        requires
            old(self).current_number_of_entities < EntityId::MAX,
        ensures
            *final(self) == (Class {
                current_number_of_entities: (old(self).current_number_of_entities + 1) as EntityId,
                ..*old(self)
            }),
    {
        self.current_number_of_entities = self.current_number_of_entities + 1;
    }

    /// Takes one from the class's entity count.
    pub fn decrement_entities_count(&mut self)
        requires
            old(self).current_number_of_entities > 0,
        ensures
            *final(self) == (Class {
                current_number_of_entities: (old(self).current_number_of_entities - 1) as EntityId,
                ..*old(self)
            }),
    {
        self.current_number_of_entities = self.current_number_of_entities - 1;
    }

    pub fn get_permissions(&self) -> (r: &ClassPermissions)
        ensures
            *r == self.class_permissions,
    {
        &self.class_permissions
    }

    /// Get per controller `Class`-specific limit
    pub fn get_controller_entity_creation_limit(&self) -> (r: EntityId)
        ensures
            r == self.per_controller_entity_creation_limit,
    {
        self.per_controller_entity_creation_limit
    }

    /// Retrieve the maximum entities count which can be created for the class
    pub fn get_maximum_entities_count(&self) -> (r: EntityId)
        ensures
            r == self.maximum_entities_count,
    {
        self.maximum_entities_count
    }

    /// The schema under `schema_index` exists and is active.
    pub open spec fn spec_schema_is_active(&self, schema_index: SchemaId) -> Result<(), Error> {
        if schema_index as int >= self.schemas@.len() {
            Err(Error::UnknownSchemaId)
        } else if !self.schemas@[schema_index as int].spec_is_active() {
            Err(Error::SchemaNotActive)
        } else {
            Ok(())
        }
    }

    pub fn ensure_schema_is_active(&self, schema_index: SchemaId) -> (r: Result<(), Error>)
        ensures
            r == self.spec_schema_is_active(schema_index),
    {
        if schema_index >= self.schemas.len() as u64 {
            Err(Error::UnknownSchemaId)
        } else if !self.schemas[schema_index as usize].is_active() {
            Err(Error::SchemaNotActive)
        } else {
            Ok(())
        }
    }

    /// `schema_id` indexes into the class's schemas.
    pub fn ensure_schema_id_exists(&self, schema_id: SchemaId) -> (r: Result<(), Error>)
        ensures
            r == if (schema_id as int) < self.schemas@.len() {
                Result::<(), Error>::Ok(())
            } else {
                Result::<(), Error>::Err(Error::UnknownSchemaId)
            },
    {
        if schema_id < self.schemas.len() as u64 {
            Ok(())
        } else {
            Err(Error::UnknownSchemaId)
        }
    }

    /// The class may take one more schema under the configured limit.
    pub fn ensure_schemas_limit_not_reached(&self, limit: MaxNumber) -> (r: Result<(), Error>)
        ensures
            r == if self.schemas@.len() < limit {
                Result::<(), Error>::Ok(())
            } else {
                Result::<(), Error>::Err(Error::SchemasLimitReached)
            },
    {
        if (self.schemas.len() as u64) < limit as u64 {
            Ok(())
        } else {
            Err(Error::SchemasLimitReached)
        }
    }

    /// The class stays within the property-count limit after appending
    /// `new_properties`.
    pub fn ensure_properties_limit_not_reached(
        &self,
        limit: MaxNumber,
        new_properties: &Vec<Property>,
    ) -> (r: Result<(), Error>)
        ensures
            r == if self.properties@.len() + new_properties@.len() <= limit {
                Result::<(), Error>::Ok(())
            } else {
                Result::<(), Error>::Err(Error::PropertiesLimitReached)
            },
    {
        if new_properties.len() as u64 > limit as u64 {
            Err(Error::PropertiesLimitReached)
        } else if self.properties.len() as u64 <= limit as u64 - new_properties.len() as u64 {
            Ok(())
        } else {
            Err(Error::PropertiesLimitReached)
        }
    }

    /// The class has room for one more entity.
    pub fn ensure_maximum_entities_count_limit_not_reached(&self) -> (r: Result<(), Error>)
        ensures
            r == if self.current_number_of_entities < self.maximum_entities_count {
                Result::<(), Error>::Ok(())
            } else {
                Result::<(), Error>::Err(Error::EntitiesPerClassLimitReached)
            },
    {
        if self.current_number_of_entities < self.maximum_entities_count {
            Ok(())
        } else {
            Err(Error::EntitiesPerClassLimitReached)
        }
    }
}

} // verus!

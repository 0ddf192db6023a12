//! Entities: instances of a class, with their supported schemas, property
//! values, and the two inbound reference counters.

use vstd::prelude::*;
use crate::collections::IdSet;
use crate::collections::KvMap;
use crate::errors::Error;
use crate::permissions::EntityController;
use crate::permissions::EntityPermissions;
use crate::schema::PropertyValue;
use crate::ClassId;
use crate::ReferenceCounter;
use crate::SchemaId;

verus! {

/// An instance of exactly one class.
#[derive(Debug)]
pub struct Entity {
    /// Permissions for this entity.
    pub entity_permission: EntityPermissions,
    /// The class this entity instantiates.
    pub class_id: ClassId,
    /// Indices of the class schemas this entity supports; grows monotonically.
    pub supported_schemas: IdSet,
    /// Property values, keyed by in-class property index.
    pub values: KvMap<PropertyValue>,
    /// Number of property-value slots referencing this entity.
    pub reference_count: ReferenceCounter,
    /// Number of inbound references whose property has `same_controller` set.
    pub inbound_same_owner_references_from_other_entities_count: ReferenceCounter,
}

impl Entity {
    /// Entity-local well-formedness: the collections are well-formed, and
    /// the same-owner counter never exceeds the total counter.
    pub open spec fn wf(&self) -> bool {
        &&& self.supported_schemas.wf()
        &&& self.values.wf()
        &&& self.inbound_same_owner_references_from_other_entities_count <= self.reference_count
    }

    /// A fresh entity of `class_id` controlled by `controller`, without
    /// schemas, values, or inbound references.
    pub fn new(controller: EntityController, class_id: ClassId) -> (r: Entity)
        ensures
            r.wf(),
            r.entity_permission == (EntityPermissions {
                controller,
                frozen: false,
                referenceable: true,
            }),
            r.class_id == class_id,
            r.supported_schemas@ == Set::<SchemaId>::empty(),
            r.values@ == Map::<u64, PropertyValue>::empty(),
            r.reference_count == 0,
            r.inbound_same_owner_references_from_other_entities_count == 0,
    {
        Entity {
            entity_permission: EntityPermissions::default_with_controller(controller),
            class_id,
            supported_schemas: IdSet::new(),
            values: KvMap::new(),
            reference_count: 0,
            inbound_same_owner_references_from_other_entities_count: 0,
        }
    }

    pub fn get_permissions(&self) -> (r: &EntityPermissions)
        ensures
            *r == self.entity_permission,
    {
        &self.entity_permission
    }

    /// The schema under `schema_id` is not yet supported by this entity.
    pub fn ensure_schema_id_is_not_added(&self, schema_id: SchemaId) -> (r: Result<(), Error>)
        ensures
            r == if self.supported_schemas@.contains(schema_id) {
                Result::<(), Error>::Err(Error::SchemaAlreadyAddedToEntity)
            } else {
                Result::<(), Error>::Ok(())
            },
    {
        if self.supported_schemas.contains(schema_id) {
            Err(Error::SchemaAlreadyAddedToEntity)
        } else {
            Ok(())
        }
    }
}

/// The reference-counter deltas one mutation induces, split by flavour:
/// entity id to how many slots were gained or lost.
#[derive(Debug)]
pub struct EntitiesRc {
    /// Deltas counting only into the total counter.
    pub inbound_entity_rcs: KvMap<ReferenceCounter>,
    /// Deltas counting into both the total and the same-owner counter.
    pub inbound_same_owner_entity_rcs: KvMap<ReferenceCounter>,
}

impl EntitiesRc {
    /// Empty deltas.
    pub fn default() -> (r: EntitiesRc)
        ensures
            r.wf(),
            r.inbound_entity_rcs@ == Map::<u64, ReferenceCounter>::empty(),
            r.inbound_same_owner_entity_rcs@ == Map::<u64, ReferenceCounter>::empty(),
    {
        EntitiesRc { inbound_entity_rcs: KvMap::new(), inbound_same_owner_entity_rcs: KvMap::new() }
    }

    pub open spec fn wf(&self) -> bool {
        &&& self.inbound_entity_rcs.wf()
        &&& self.inbound_same_owner_entity_rcs.wf()
    }
}

} // verus!

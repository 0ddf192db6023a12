//! Core of a schema-driven, permissioned entity store.
//!
//! The store keeps user-defined classes (each with typed properties bundled
//! into schemas), entities instantiating those classes, curator groups, and
//! per-controller entity-creation vouchers.  Every mutation validates its
//! inputs and the caller's authority first and only then writes, so a failed
//! call leaves the store untouched — except where checked counter arithmetic
//! surfaces [`Error::InternalInvariantBroken`] past the mutation point, and
//! for the applied prefix of a failed [`Store::transaction`] batch.

use vstd::prelude::*;

mod class;
mod collections;
mod config;
mod entity;
mod entity_ops;
mod errors;
mod events;
mod laws;
mod operations;
mod permissions;
mod schema;
mod store;
mod support_ops;
mod transfer;
mod update_ops;
mod value_checks;
mod value_ops;
mod vector_ops;
mod vouchers;

pub use class::Class;
pub use collections::IdSet;
pub use collections::KvMap;
pub use config::InputValidationLengthConstraint;
pub use config::StoreConfig;
pub use entity::EntitiesRc;
pub use entity::Entity;
pub use errors::Error;
pub use events::Event;
pub use laws::lemma_insert_then_remove_restores_elems;
pub use laws::lemma_schema_deactivate_reactivate_round_trip;
pub use laws::lemma_schema_status_round_trip;
pub use laws::lemma_vector_insert_then_remove_round_trip;
pub use laws::lemma_vector_round_trip_restores_counters;
pub use operations::AddSchemaSupportToEntityOperation;
pub use operations::CreateEntityOperation;
pub use operations::OperationType;
pub use operations::ParametrizedClassPropertyValue;
pub use operations::ParametrizedEntity;
pub use operations::ParametrizedPropertyValue;
pub use operations::UpdatePropertyValuesOperation;
pub use operations::parametrized_entity_to_entity_id;
pub use operations::parametrized_property_values_to_property_values;
pub use permissions::Actor;
pub use permissions::Authority;
pub use permissions::ClassPermissions;
pub use permissions::CuratorGroup;
pub use permissions::EntityAccessLevel;
pub use permissions::EntityController;
pub use permissions::EntityCreationVoucher;
pub use permissions::EntityPermissions;
pub use permissions::Origin;
pub use schema::Property;
pub use schema::PropertyType;
pub use schema::PropertyValue;
pub use schema::Schema;
pub use schema::SinglePropertyValue;
pub use schema::Type;
pub use schema::VecPropertyType;
pub use schema::VecPropertyValue;
pub use schema::VecValue;
pub use schema::Value;
pub use store::Store;
pub use value_ops::rc_only_change;
pub use vouchers::VoucherKey;
pub use vouchers::VoucherMap;

verus! {

/// Identifier of a class; issued by a monotone counter, never reused.
pub type ClassId = u64;

/// Identifier of an entity; issued by a monotone counter, never reused.
pub type EntityId = u64;

/// Identifier of a curator group; issued by a monotone counter, never reused.
pub type CuratorGroupId = u64;

/// Identifier of a curator inside the actor-authentication module.
pub type CuratorId = u64;

/// Identifier of a member inside the actor-authentication module.
pub type MemberId = u64;

/// A signed account, as handed over by the host's origin check.
pub type AccountId = u64;

/// Version counter of a vector property value, bumped on every vector mutation.
pub type Nonce = u64;

/// Dense index of a property inside its class.
pub type PropertyId = u64;

/// Dense index of a schema inside its class.
pub type SchemaId = u64;

/// Maximum length of a vector property value.
pub type VecMaxLength = u16;

/// Maximum byte length of a text property value.
pub type TextMaxLength = u16;

/// Width of the configured cardinality limits.
pub type MaxNumber = u32;

/// Count of inbound references to an entity.
pub type ReferenceCounter = u32;

} // verus!

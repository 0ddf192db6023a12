//! Events the store emits, one per successful mutation.  Events carry the
//! primary identifiers of the mutation and never influence state.

use vstd::prelude::*;
use crate::permissions::Actor;
use crate::permissions::EntityController;
use crate::permissions::EntityCreationVoucher;
use crate::ClassId;
use crate::CuratorGroupId;
use crate::CuratorId;
use crate::EntityId;
use crate::Nonce;
use crate::PropertyId;
use crate::SchemaId;
use crate::VecMaxLength;

verus! {

/// One successful mutation, as reported to the host's event bus.
#[derive(Clone, Copy, Debug, PartialEq, Eq, Structural)]
pub enum Event {
    CuratorGroupAdded(CuratorGroupId),
    CuratorGroupRemoved(CuratorGroupId),
    CuratorGroupStatusSet(bool),
    CuratorAdded(CuratorGroupId, CuratorId),
    CuratorRemoved(CuratorGroupId, CuratorId),
    MaintainerAdded(ClassId, CuratorGroupId),
    MaintainerRemoved(ClassId, CuratorGroupId),
    EntityCreationVoucherUpdated(EntityController, EntityCreationVoucher),
    EntityCreationVoucherCreated(EntityController, EntityCreationVoucher),
    ClassCreated(ClassId),
    ClassPermissionsUpdated(ClassId),
    ClassSchemaAdded(ClassId, SchemaId),
    ClassSchemaStatusUpdated(ClassId, SchemaId, bool),
    EntityPermissionsUpdated(EntityId),
    EntityCreated(Actor, EntityId),
    EntityRemoved(Actor, EntityId),
    EntitySchemaSupportAdded(Actor, EntityId, SchemaId),
    EntityPropertyValuesUpdated(Actor, EntityId),
    EntityPropertyValueVectorCleared(Actor, EntityId, PropertyId),
    RemovedAtEntityPropertyValueVectorIndex(Actor, EntityId, PropertyId, VecMaxLength, Nonce),
    InsertedAtEntityPropertyValueVectorIndex(Actor, EntityId, PropertyId, VecMaxLength, Nonce),
    TransactionCompleted(Actor),
    EntityOwnershipTransfered(EntityId, EntityController),
}

} // verus!

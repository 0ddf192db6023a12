//! The closed enumeration of errors surfaced by the store.
//!
//! Every mutating call validates first and mutates second: on an error no
//! state was changed and no event was emitted, with two exceptions.  When
//! checked counter arithmetic surfaces `InternalInvariantBroken` after the
//! mutation point, some reference-counter deltas may already be applied;
//! and a failing operation inside `transaction` keeps the batch's
//! already-applied prefix, whose rollback is the host extrinsic's.

use vstd::prelude::*;

verus! {

/// Everything that can go wrong during a store mutation.
#[derive(Clone, Copy, Debug, PartialEq, Eq, Structural)]
pub enum Error {
    // Existence
    /// No class is registered under the given class id.
    ClassNotFound,
    /// No entity is registered under the given entity id.
    EntityNotFound,
    /// No curator group is registered under the given group id.
    CuratorGroupNotFound,
    /// The schema id is not an index into the class's schema list.
    UnknownSchemaId,
    /// The property id does not name a property value of the entity or class.
    UnknownPropertyId,

    // Authorization
    /// The caller cannot act in the requested role on this entity or class.
    AccessDenied,
    /// The entity is frozen for its controller.
    EntityFrozen,
    /// Entity creation is blocked on the class.
    EntityCreationBlocked,
    /// The property is locked for the caller's access level.
    PropertyLockedForActor,
    /// All property values of the class are locked at class level.
    AllPropertiesLockedAtClassLevel,

    // Quota
    /// The maximum number of classes already exists.
    ClassLimitReached,
    /// The class already holds the maximum number of schemas.
    SchemasLimitReached,
    /// The class would exceed the maximum number of properties.
    PropertiesLimitReached,
    /// The class already has the maximum number of maintainers.
    MaintainersLimitReached,
    /// The curator group already has the maximum number of curators.
    CuratorsLimitReached,
    /// The class already holds its maximum number of entities.
    EntitiesPerClassLimitReached,
    /// The controller's creation voucher for this class is exhausted.
    VoucherLimitReached,
    /// The batch holds more operations than the configured maximum.
    OpsPerBatchLimitReached,

    // Validation
    /// A class or property name is shorter than the configured minimum.
    NameTooShort,
    /// A class or property name is longer than the configured maximum.
    NameTooLong,
    /// A class or property description is shorter than the configured minimum.
    DescriptionTooShort,
    /// A class or property description is longer than the configured maximum.
    DescriptionTooLong,
    /// A text value (or declared text bound) exceeds the allowed length.
    TextTooLong,
    /// A vector value (or declared vector bound) exceeds the allowed length.
    VecTooLong,
    /// A new property's name repeats a name already used in the class.
    PropertyNameNotUnique,
    /// A schema refers to a property index outside the class's properties.
    SchemaRefersUnknownProp,
    /// A reference property points to a class that does not exist.
    SchemaRefersUnknownClass,
    /// A schema must name at least one property.
    EmptySchema,
    /// The schema was already added to the entity.
    SchemaAlreadyAddedToEntity,
    /// A required property of the schema was not supplied.
    MissingRequiredProp,
    /// A unique property value repeats another value of the entity.
    PropertyValueNotUnique,
    /// The value's shape or inner type does not match the declared property type.
    ValueTypeMismatch,
    /// A vector index is outside the permitted range.
    IndexOutOfBounds,

    // Consistency
    /// The supplied nonce does not match the vector's current nonce.
    NonceMismatch,
    /// The entity still has inbound references.
    EntityRcNonZero,
    /// The referenced entity is not referenceable.
    ReferencedEntityNotReferenceable,
    /// A same-owner reference would connect entities of different controllers.
    SameOwnerConstraintViolated,
    /// The schema exists but is deactivated.
    SchemaNotActive,
    /// A batch operation refers to the output of an operation that did not run.
    InternalEntityReferencesOutOfBounds,

    // Limit relations on classes and vouchers
    /// The per-controller creation limit must stay below the class maximum.
    PerControllerLimitExceedsOverallLimit,
    /// The class maximum exceeds the configured per-class ceiling.
    EntitiesPerClassConstraintViolated,
    /// The per-controller limit exceeds the configured individual ceiling.
    PerActorConstraintViolated,
    /// A voucher's new maximum would fall below what was already created.
    VoucherMaxBelowCreatedCount,
    /// A voucher's maximum would exceed the class's per-controller limit.
    VoucherMaxExceedsPerControllerLimit,

    // Curator group maintenance
    /// The curator group still maintains at least one class.
    CuratorGroupMaintainsClass,
    /// The curator group is already a maintainer of the class.
    MaintainerAlreadyExists,
    /// The curator group is not a maintainer of the class.
    MaintainerDoesNotExist,

    // Arithmetic
    /// A counter would underflow or overflow; the store refuses to wrap.
    InternalInvariantBroken,
}

} // verus!

//! Host-injected configuration: cardinality limits and length constraints.

use vstd::prelude::*;
use crate::errors::Error;
use crate::EntityId;
use crate::MaxNumber;
use crate::TextMaxLength;
use crate::VecMaxLength;

verus! {

/// Minimum and maximum length for a validated byte string.  Storing the
/// difference instead of the maximum makes `max < min` unrepresentable.
#[derive(Clone, Copy, Debug, PartialEq, Eq, Structural)]
pub struct InputValidationLengthConstraint {
    /// Minimum length.
    pub min: u16,
    /// Difference between minimum length and maximum length.
    pub max_min_diff: u16,
}

impl InputValidationLengthConstraint {
    pub fn new(min: u16, max_min_diff: u16) -> (r: InputValidationLengthConstraint)
        ensures
            r.min == min,
            r.max_min_diff == max_min_diff,
    {
        InputValidationLengthConstraint { min, max_min_diff }
    }

    /// The inclusive maximum length.
    pub open spec fn spec_max(self) -> int {
        self.min + self.max_min_diff
    }

    /// Helper for computing max
    pub fn max(self) -> (r: u32)
        ensures
            r == self.spec_max(),
    {
        self.min as u32 + self.max_min_diff as u32
    }

    /// Whether a byte string of length `len` satisfies the constraint,
    /// and the error surfaced when it does not.
    pub open spec fn spec_ensure_valid(
        self,
        len: int,
        too_short: Error,
        too_long: Error,
    ) -> Result<(), Error> {
        if len < self.min {
            Err(too_short)
        } else if len > self.spec_max() {
            Err(too_long)
        } else {
            Ok(())
        }
    }

    pub fn ensure_valid(self, len: usize, too_short: Error, too_long: Error) -> (r: Result<
        (),
        Error,
    >)
        ensures
            r == self.spec_ensure_valid(len as int, too_short, too_long),
    {
        if len < self.min as usize {
            Err(too_short)
        } else if len > self.min as usize + self.max_min_diff as usize {
            Err(too_long)
        } else {
            Ok(())
        }
    }
}

/// The configuration constants the host injects into the store.
#[derive(Clone, Copy, Debug, PartialEq, Eq, Structural)]
pub struct StoreConfig {
    /// The maximum number of classes.
    pub max_number_of_classes: MaxNumber,
    /// The maximum number of maintainers per class.
    pub max_number_of_maintainers_per_class: MaxNumber,
    /// The maximum number of curators per group.
    pub max_number_of_curators_per_group: MaxNumber,
    /// The maximum number of schemas per class.
    pub number_of_schemas_per_class: MaxNumber,
    /// The maximum number of properties per class.
    pub max_number_of_properties_per_class: MaxNumber,
    /// The maximum number of operations in one `transaction` batch.
    pub max_number_of_operations_during_atomic_batching: MaxNumber,
    /// The maximum length of a vector property value.
    pub vec_max_length_constraint: VecMaxLength,
    /// The maximum byte length of a text property value.
    pub text_max_length_constraint: TextMaxLength,
    /// The ceiling for any class's maximum entities count.
    pub max_number_of_entities_per_class: EntityId,
    /// The ceiling for any per-controller entity creation limit.
    pub individual_entities_creation_limit: EntityId,
    /// Length constraint for property names.
    pub property_name_constraint: InputValidationLengthConstraint,
    /// Length constraint for property descriptions.
    pub property_description_constraint: InputValidationLengthConstraint,
    /// Length constraint for class names.
    pub class_name_constraint: InputValidationLengthConstraint,
    /// Length constraint for class descriptions.
    pub class_description_constraint: InputValidationLengthConstraint,
}

} // verus!

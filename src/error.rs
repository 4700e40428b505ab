//! The closed set of failures that the library reports.

use vstd::prelude::*;

verus! {

/// A failure reported by the library. Registry and ancestry queries never
/// fail; reflection writes report the two field errors.
#[derive(Debug, Clone, PartialEq, Eq)]
pub enum DynastyError {
    /// No registered class carries the given name.
    ClassNotFound(String),
    /// A declared parent/child pairing is inconsistent (child, parent).
    InvalidInheritance(String, String),
    /// A value of another type was offered for a field.
    TypeMismatch { expected: String, found: String },
    /// Any other reflection failure.
    ReflectionError(String),
    /// The named field does not exist.
    FieldNotFound(String),
}

} // verus!

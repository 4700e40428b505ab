//! Type identity: the process-wide identifier of a concrete type.

use std::any::TypeId;
use vstd::prelude::*;

verus! {

#[verifier::external_type_specification]
#[verifier::external_body]
pub struct ExTypeId(std::any::TypeId);

/// Relies on `TypeId::of`: yields the identifier of `T`. Nothing is assumed of
/// the value beyond its being a `TypeId`.
pub assume_specification<T: ?Sized + 'static>[ std::any::TypeId::of::<T> ]() -> (r: TypeId);

/// Relies on `TypeId`'s `PartialEq`: two identifiers compare equal exactly
/// when they are the same value.
pub assume_specification[ <std::any::TypeId as PartialEq>::eq ](a: &TypeId, b: &TypeId) -> (r: bool)
    ensures
        r == (*a == *b),
;

/// The identity of the concrete type `T`.
pub fn identity_of<T: ?Sized + 'static>() -> (r: TypeId) {
    TypeId::of::<T>()
}

/// Whether two identities denote the same type.
pub fn same_identity(a: &TypeId, b: &TypeId) -> (r: bool)
    ensures
        r == (*a == *b),
{
    *a == *b
}

} // verus!
